use web_streams::number::Number;
use web_streams::queuing::{CallbackObject, QueuingStrategy};
use web_streams::readable::options::StreamPipeOptions;
use web_streams::readable::pipe::{readable_stream_pipe_to, PipeState, PipeWriteStep};
use web_streams::readable::read_request::ReadRequest;
use web_streams::readable::readable_stream::{ReadableStream, ReadableStreamState};
use web_streams::readable::underlying_source::{SourceArgument, UnderlyingSource};
use web_streams::scope::{
    Algorithm, Call, Effect, Microtask, PromiseRef, Reaction, ReadOutcome, Scope,
};
use web_streams::transform::readable_writable_pair::ReadableWritablePair;
use web_streams::value::{Message, Value};
use web_streams::writable::underlying_sink::{SinkArgument, UnderlyingSink};
use web_streams::writable::writable_stream::{WritableStream, WritableStreamState};

fn number(value: f64) -> Number {
    Number { bits: value.to_bits() }
}

const SOURCE: u64 = 1;
const DEST: u64 = 2;
const PIPE: u64 = 9;

struct Piping {
    scope: Scope,
    source: ReadableStream,
    dest: WritableStream,
}

fn piping(mark: u64) -> Piping {
    let mut scope = Scope::new(1 << 20);
    let members = UnderlyingSource {
        start: None,
        pull: Some(CallbackObject { handle: 2, callable: true }),
        cancel: Some(CallbackObject { handle: 3, callable: true }),
        kind: None,
        auto_allocate_chunk_size: None,
    };
    let source = ReadableStream::new(
        &mut scope,
        SOURCE,
        SourceArgument::Object { handle: 50, members: Ok(members) },
        None,
    );
    let sink = UnderlyingSink {
        start: None,
        write: Some(CallbackObject { handle: 5, callable: true }),
        close: Some(CallbackObject { handle: 6, callable: true }),
        abort: Some(CallbackObject { handle: 7, callable: true }),
        has_kind: false,
    };
    let dest = WritableStream::new(
        &mut scope,
        DEST,
        SinkArgument::Object { handle: 51, members: Ok(sink) },
        Some(QueuingStrategy { high_water_mark: Some(number(mark as f64)), size: None }),
    );
    let mut source = source.unwrap_or_else(|_| panic!("the source is in order"));
    let mut dest = dest.unwrap_or_else(|_| panic!("the sink is in order"));
    source.start_promise_fulfilled(&mut scope);
    dest.ws_start_promise_fulfilled(&mut scope);
    scope.effects.clear();
    Piping { scope, source, dest }
}

fn options() -> StreamPipeOptions {
    StreamPipeOptions::default()
}

impl Piping {
    fn begin(&mut self, options: StreamPipeOptions) -> PipeState {
        readable_stream_pipe_to(
            &mut self.scope,
            &mut self.source,
            &mut self.dest,
            PIPE,
            options,
            None,
        )
    }

    fn take(&mut self) -> Vec<Effect> {
        std::mem::take(&mut self.scope.effects)
    }

    /// Has a chunk read by the pipe and handed to it.
    fn read(&mut self, pipe: &mut PipeState, chunk: u64) {
        pipe.pipe_ready_fulfilled(&mut self.scope, &mut self.source);
        self.source.enqueue_chunk(&mut self.scope, &Value::Handle(chunk));
        let given = Effect::ReadSteps(
            ReadRequest::Pipe { pipe: PIPE },
            ReadOutcome::Chunk(Value::Handle(chunk)),
        );
        assert!(self.take().contains(&given));
        pipe.pipe_read_request_chunk_steps(&mut self.scope, Value::Handle(chunk));
        assert_eq!(self.take(), vec![Effect::Queue(Microtask::PipeWrite { pipe: PIPE })]);
    }

    fn write(&mut self, pipe: &mut PipeState, promise: u64) {
        let step =
            pipe.pipe_deferred_write(&mut self.scope, &self.source, &mut self.dest, promise);
        assert_eq!(step, PipeWriteStep::Done);
    }
}

fn settled_pipe() -> Effect {
    Effect::Resolve(PromiseRef::Pipe(PIPE), Value::Undefined)
}

fn failed_pipe(error: Value) -> Effect {
    Effect::Reject(PromiseRef::Pipe(PIPE), error)
}

fn wait_for_ready() -> Effect {
    Effect::OnFulfilled(PromiseRef::WriterReady(DEST), Reaction::PipeReady { pipe: PIPE })
}

#[test]
fn a_pipe_locks_both_streams_and_waits_for_the_writer() {
    let mut p = piping(1);
    let pipe = p.begin(options());
    assert!(p.source.is_locked());
    assert!(p.source.is_disturbed());
    assert!(p.dest.locked());
    assert!(!pipe.shutting_down);
    let effects = p.take();
    assert!(effects.contains(&Effect::NewPromise(PromiseRef::Pipe(PIPE))));
    assert_eq!(
        effects[effects.len() - 4..],
        [
            Effect::OnRejected(
                PromiseRef::ReaderClosed(SOURCE),
                Reaction::PipeForwardError { pipe: PIPE }
            ),
            Effect::OnRejected(
                PromiseRef::WriterClosed(DEST),
                Reaction::PipeBackwardError { pipe: PIPE }
            ),
            Effect::OnFulfilled(
                PromiseRef::ReaderClosed(SOURCE),
                Reaction::PipeForwardClose { pipe: PIPE }
            ),
            wait_for_ready(),
        ]
    );
}

#[test]
fn chunks_go_from_the_source_to_the_destination() {
    let mut p = piping(4);
    let mut pipe = p.begin(options());
    p.take();
    p.read(&mut pipe, 10);
    p.write(&mut pipe, 1);
    assert_eq!(
        p.take(),
        vec![
            Effect::Invoke {
                call: Call::WritableWrite { stream: DEST, chunk: Value::Handle(10) },
                algorithm: Algorithm::Callback(5),
                receiver: Value::Handle(51),
            },
            Effect::OnSettled(PromiseRef::Request(1), Reaction::PipeWritten { pipe: PIPE }),
            wait_for_ready(),
        ]
    );
    assert_eq!(pipe.pending_writes, 1);
    p.dest.ws_write_promise_fulfilled(&mut p.scope);
    pipe.pipe_write_settled(&mut p.scope, &mut p.source, &mut p.dest);
    assert_eq!(pipe.pending_writes, 0);
}

#[test]
fn the_end_of_the_source_closes_the_destination() {
    let mut p = piping(1);
    let mut pipe = p.begin(options());
    p.take();
    p.source.close_values(&mut p.scope);
    p.take();
    pipe.pipe_fwd_close(&mut p.scope, &mut p.source, &mut p.dest);
    assert_eq!(p.take(), vec![Effect::Queue(Microtask::PipeShutdown { pipe: PIPE })]);
    pipe.pipe_shutdown_proceed_deferred(&mut p.scope, &mut p.source, &mut p.dest);
    let effects = p.take();
    assert!(effects.iter().any(|effect| matches!(
        effect,
        Effect::Invoke { call: Call::WritableClose { stream: DEST }, .. }
    )));
    assert_eq!(
        effects.last(),
        Some(&Effect::OnSettled(
            PromiseRef::PipeAction(PIPE),
            Reaction::PipeAction { pipe: PIPE }
        ))
    );
    p.dest.ws_close_promise_fulfilled(&mut p.scope);
    pipe.pipe_action_fulfilled(&mut p.scope, &mut p.source, &mut p.dest);
    assert!(pipe.finished);
    assert!(!p.source.is_locked());
    assert!(!p.dest.locked());
    assert_eq!(p.scope.effects.last(), Some(&settled_pipe()));
}

#[test]
fn a_close_can_be_prevented() {
    let mut p = piping(1);
    let mut pipe = p.begin(StreamPipeOptions { prevent_close: true, ..options() });
    p.source.close_values(&mut p.scope);
    pipe.pipe_fwd_close(&mut p.scope, &mut p.source, &mut p.dest);
    pipe.pipe_shutdown_proceed_deferred(&mut p.scope, &mut p.source, &mut p.dest);
    assert!(pipe.finished);
    assert_eq!(p.dest.state, WritableStreamState::Writable);
    assert!(!p.dest.writable_stream_close_queued_or_in_flight());
    assert_eq!(p.scope.effects.last(), Some(&settled_pipe()));
}

#[test]
fn a_failure_of_the_source_aborts_the_destination() {
    let mut p = piping(1);
    p.source.error(&mut p.scope, Value::Handle(66));
    let mut pipe = p.begin(options());
    assert!(pipe.shutting_down);
    p.take();
    pipe.pipe_shutdown_proceed_deferred(&mut p.scope, &mut p.source, &mut p.dest);
    let effects = p.take();
    assert!(effects
        .contains(&Effect::SignalAbort { stream: DEST, reason: Value::Handle(66) }));
    assert_eq!(effects.last(), Some(&Effect::PipeAbortSignaled { pipe: PIPE }));
    pipe.pipe_abort_signaled(&mut p.scope, &mut p.source, &mut p.dest);
    assert_eq!(p.dest.state, WritableStreamState::Errored);
    assert_eq!(
        p.take().last(),
        Some(&Effect::OnSettled(
            PromiseRef::PipeAction(PIPE),
            Reaction::PipeAction { pipe: PIPE }
        ))
    );
    pipe.pipe_action_fulfilled(&mut p.scope, &mut p.source, &mut p.dest);
    assert_eq!(p.scope.effects.last(), Some(&failed_pipe(Value::Handle(66))));
}

#[test]
fn an_abort_can_be_prevented() {
    let mut p = piping(1);
    p.source.error(&mut p.scope, Value::Handle(66));
    let mut pipe = p.begin(StreamPipeOptions { prevent_abort: true, ..options() });
    pipe.pipe_shutdown_proceed_deferred(&mut p.scope, &mut p.source, &mut p.dest);
    assert_eq!(p.dest.state, WritableStreamState::Writable);
    assert_eq!(p.scope.effects.last(), Some(&failed_pipe(Value::Handle(66))));
}

#[test]
fn a_failure_of_the_destination_cancels_the_source() {
    let mut p = piping(1);
    p.dest.error(&mut p.scope, Value::Handle(67));
    let pipe = p.begin(options());
    assert!(pipe.shutting_down);
    assert_eq!(p.source.slots.state, ReadableStreamState::Closed);
    let effects = p.take();
    assert!(effects.iter().any(|effect| matches!(
        effect,
        Effect::Invoke {
            call: Call::ReadableCancel { reason: Value::Handle(67), .. },
            algorithm: Algorithm::Callback(3),
            ..
        }
    )));
    assert_eq!(
        effects.iter().rev().find(|effect| matches!(effect, Effect::OnSettled(..))),
        Some(&Effect::OnSettled(
            PromiseRef::PipeCancel(PIPE),
            Reaction::PipeAction { pipe: PIPE }
        ))
    );
}

#[test]
fn a_cancelation_can_be_prevented_and_may_fail() {
    let mut p = piping(1);
    p.dest.error(&mut p.scope, Value::Handle(67));
    let pipe = p.begin(StreamPipeOptions { prevent_cancel: true, ..options() });
    assert!(pipe.finished);
    assert_eq!(p.source.slots.state, ReadableStreamState::Readable);
    assert!(p.take().contains(&failed_pipe(Value::Handle(67))));
    let mut p = piping(1);
    p.dest.error(&mut p.scope, Value::Handle(67));
    let mut pipe = p.begin(options());
    pipe.pipe_action_rejected(&mut p.scope, &mut p.source, &mut p.dest, Value::Handle(68));
    assert_eq!(p.scope.effects.last(), Some(&failed_pipe(Value::Handle(68))));
}

#[test]
fn a_failure_of_the_source_comes_first() {
    let mut p = piping(1);
    p.source.error(&mut p.scope, Value::Handle(66));
    p.dest.error(&mut p.scope, Value::Handle(67));
    let pipe = p.begin(options());
    assert_eq!(pipe.original_error, Some(Value::Handle(66)));
}

#[test]
fn a_closed_destination_takes_nothing() {
    let mut p = piping(1);
    p.dest.close(&mut p.scope, 1);
    let pipe = p.begin(options());
    let error = Value::TypeError(Message::PipeDestinationClosed);
    assert_eq!(pipe.original_error, Some(error));
    assert_eq!(p.source.slots.state, ReadableStreamState::Closed);
}

#[test]
fn what_was_read_is_written_before_the_end() {
    let mut p = piping(1);
    let mut pipe = p.begin(options());
    p.take();
    p.read(&mut pipe, 10);
    p.source.close_values(&mut p.scope);
    p.take();
    pipe.pipe_fwd_close(&mut p.scope, &mut p.source, &mut p.dest);
    assert!(pipe.shutdown_waiting);
    assert!(p.take().is_empty());
    p.write(&mut pipe, 1);
    let effects = p.take();
    assert!(!effects.contains(&wait_for_ready()));
    p.dest.ws_write_promise_fulfilled(&mut p.scope);
    p.take();
    pipe.pipe_write_settled(&mut p.scope, &mut p.source, &mut p.dest);
    assert!(!pipe.shutdown_waiting);
    assert!(p.take().iter().any(|effect| matches!(
        effect,
        Effect::Invoke { call: Call::WritableClose { stream: DEST }, .. }
    )));
}

#[test]
fn a_pipe_that_shuts_down_reads_no_more() {
    let mut p = piping(1);
    let mut pipe = p.begin(options());
    pipe.pipe_fwd_error(&mut p.scope, &mut p.source, &mut p.dest, Value::Handle(66));
    p.take();
    pipe.pipe_ready_fulfilled(&mut p.scope, &mut p.source);
    pipe.pipe_step(&mut p.scope, &p.dest);
    pipe.pipe_bwd_error(&mut p.scope, &mut p.source, &mut p.dest, Value::Handle(67));
    assert!(p.take().is_empty());
    assert_eq!(pipe.original_error, Some(Value::Handle(66)));
}

#[test]
fn a_chunk_that_comes_too_late_is_dropped() {
    let mut p = piping(1);
    let mut pipe = p.begin(StreamPipeOptions { prevent_cancel: true, ..options() });
    p.take();
    p.read(&mut pipe, 10);
    p.dest.error(&mut p.scope, Value::Handle(67));
    pipe.pipe_bwd_error(&mut p.scope, &mut p.source, &mut p.dest, Value::Handle(67));
    assert!(pipe.finished);
    p.take();
    p.write(&mut pipe, 1);
    assert_eq!(pipe.pending_writes, 0);
    assert!(p.take().is_empty());
}

#[test]
fn a_shutdown_waits_for_a_chunk_that_comes_meanwhile() {
    let mut p = piping(1);
    let mut pipe = p.begin(options());
    p.take();
    pipe.pipe_ready_fulfilled(&mut p.scope, &mut p.source);
    pipe.pipe_shutdown(&mut p.scope, &mut p.source, &mut p.dest, None);
    pipe.pipe_read_request_chunk_steps(&mut p.scope, Value::Handle(10));
    pipe.pipe_shutdown_proceed_deferred(&mut p.scope, &mut p.source, &mut p.dest);
    assert!(pipe.shutdown_waiting);
    assert!(!pipe.finished);
}

#[test]
fn a_signal_aborts_a_pipe() {
    let mut p = piping(1);
    let mut pipe = p.begin(StreamPipeOptions { signal: Some(40), ..options() });
    assert!(p.take().contains(&Effect::AddAbortAlgorithm { signal: 40, pipe: PIPE }));
    let reason = Value::Handle(7);
    pipe.pipe_abort_algorithm(&mut p.scope, &mut p.source, &mut p.dest, reason.clone());
    assert_eq!(p.take(), vec![Effect::Queue(Microtask::PipeShutdown { pipe: PIPE })]);
    pipe.pipe_shutdown_proceed_deferred(&mut p.scope, &mut p.source, &mut p.dest);
    assert_eq!(
        p.take(),
        vec![
            Effect::NewPromise(PromiseRef::PipeAction(PIPE)),
            Effect::SignalAbort { stream: DEST, reason: reason.clone() },
            Effect::PipeAbortSignaled { pipe: PIPE },
        ]
    );
    pipe.pipe_abort_signaled(&mut p.scope, &p.source, &mut p.dest);
    assert_eq!(p.source.slots.state, ReadableStreamState::Readable);
    let aborted = PromiseRef::PipeAction(PIPE);
    assert_eq!(
        p.take().last(),
        Some(&Effect::PipeCancelSource { pipe: PIPE, aborted })
    );
    pipe.pipe_cancel_source(&mut p.scope, &mut p.source, &p.dest, Some(aborted));
    assert_eq!(p.source.slots.state, ReadableStreamState::Closed);
    assert_eq!(
        p.take().last(),
        Some(&Effect::OnBothSettled(
            Some(PromiseRef::PipeAction(PIPE)),
            Some(PromiseRef::PipeCancel(PIPE)),
            Reaction::PipeAction { pipe: PIPE },
        ))
    );
    pipe.pipe_action_fulfilled(&mut p.scope, &mut p.source, &mut p.dest);
    let effects = p.take();
    assert!(effects.contains(&Effect::RemoveAbortAlgorithm { signal: 40, pipe: PIPE }));
    assert_eq!(effects.last(), Some(&failed_pipe(reason)));
}

#[test]
fn a_source_that_fails_over_an_abort_is_not_canceled() {
    let mut p = piping(1);
    let mut pipe = p.begin(StreamPipeOptions { signal: Some(40), ..options() });
    pipe.pipe_abort_algorithm(&mut p.scope, &mut p.source, &mut p.dest, Value::Handle(7));
    pipe.pipe_shutdown_proceed_deferred(&mut p.scope, &mut p.source, &mut p.dest);
    pipe.pipe_abort_signaled(&mut p.scope, &p.source, &mut p.dest);
    p.source.error(&mut p.scope, Value::Handle(8));
    p.take();
    let aborted = PromiseRef::PipeAction(PIPE);
    pipe.pipe_cancel_source(&mut p.scope, &mut p.source, &p.dest, Some(aborted));
    assert_eq!(p.source.slots.state, ReadableStreamState::Errored);
    let canceled = PromiseRef::PipeCancel(PIPE);
    assert_eq!(
        p.take(),
        vec![
            Effect::NewPromise(canceled),
            Effect::Resolve(canceled, Value::Undefined),
            Effect::OnBothSettled(
                Some(aborted),
                Some(canceled),
                Reaction::PipeAction { pipe: PIPE },
            ),
        ]
    );
}

#[test]
fn a_signal_that_was_aborted_before_ends_the_pipe_at_once() {
    let mut p = piping(1);
    let given = StreamPipeOptions {
        signal: Some(40),
        prevent_abort: true,
        prevent_cancel: true,
        ..options()
    };
    let mut pipe = readable_stream_pipe_to(
        &mut p.scope,
        &mut p.source,
        &mut p.dest,
        PIPE,
        given,
        Some(Value::Handle(7)),
    );
    assert!(pipe.shutting_down);
    p.take();
    pipe.pipe_shutdown_proceed_deferred(&mut p.scope, &mut p.source, &mut p.dest);
    assert_eq!(
        p.take(),
        vec![Effect::OnBothSettled(None, None, Reaction::PipeAction { pipe: PIPE })]
    );
}

#[test]
fn a_locked_stream_is_not_piped() {
    let mut p = piping(1);
    p.source.get_reader(&mut p.scope, None).unwrap();
    p.take();
    let pipe = p.source.pipe_to(&mut p.scope, &mut p.dest, PIPE, Ok(None), None);
    assert!(pipe.is_none());
    assert_eq!(
        p.take(),
        vec![
            Effect::NewPromise(PromiseRef::Pipe(PIPE)),
            failed_pipe(Value::TypeError(Message::PipeFromLocked)),
        ]
    );
    let pair = ReadableWritablePair { readable: 30, writable: DEST };
    assert!(matches!(
        p.source.pipe_through(&mut p.scope, pair, &mut p.dest, PIPE, None, None),
        Err(Value::TypeError(Message::PipeFromLocked))
    ));
    assert!(!p.dest.locked());
    let mut q = piping(1);
    q.dest.get_writer(&mut q.scope).unwrap();
    q.take();
    let pipe = q.source.pipe_to(&mut q.scope, &mut q.dest, PIPE, Ok(None), None);
    assert!(pipe.is_none());
    assert!(!q.source.is_locked());
    assert_eq!(
        q.take().last(),
        Some(&failed_pipe(Value::TypeError(Message::PipeToLocked)))
    );
}

#[test]
fn options_that_will_not_do_come_before_the_locks() {
    let mut p = piping(1);
    p.source.get_reader(&mut p.scope, None).unwrap();
    p.take();
    let wrong = Err(Value::Handle(12));
    assert!(p.source.pipe_to(&mut p.scope, &mut p.dest, PIPE, wrong, None).is_none());
    assert_eq!(p.take().last(), Some(&failed_pipe(Value::Handle(12))));
}

#[test]
fn a_stream_is_piped_through_a_pair() {
    let mut p = piping(1);
    let pair = ReadableWritablePair { readable: 30, writable: DEST };
    match p.source.pipe_through(&mut p.scope, pair, &mut p.dest, PIPE, None, None) {
        Ok((pipe, readable)) => {
            assert_eq!(readable, 30);
            assert!(!pipe.shutting_down);
        }
        Err(_) => panic!("neither is locked"),
    }
    assert_eq!(
        p.scope.effects.last(),
        Some(&Effect::MarkHandled(PromiseRef::Pipe(PIPE)))
    );
}

#[test]
fn a_native_source_is_passed_through_an_identity_transform() {
    let mut p = piping(1);
    p.source.set_native_source(70);
    p.dest.identity_transform = Some(80);
    p.begin(options());
    assert!(p.take().contains(&Effect::PassNativeSource { transform: 80, source: 70 }));
    assert_eq!(p.source.slots.piped_to_identity_transform, Some(80));
}

#[test]
fn a_pipe_asks_for_the_size_of_a_chunk() {
    let mut p = piping(8);
    p.dest.controller.strategy_size_algorithm = Algorithm::Callback(44);
    let mut pipe = p.begin(options());
    p.take();
    p.read(&mut pipe, 10);
    let step = pipe.pipe_deferred_write(&mut p.scope, &p.source, &mut p.dest, 1);
    assert_eq!(
        step,
        PipeWriteStep::NeedsSize { algorithm: Algorithm::Callback(44), chunk: Value::Handle(10) }
    );
    pipe.pipe_deferred_write_sized(
        &mut p.scope,
        &p.source,
        &mut p.dest,
        Value::Handle(10),
        Ok(number(3.0)),
        1,
    );
    assert_eq!(p.take().last(), Some(&wait_for_ready()));
    assert_eq!(p.dest.controller.queue_total_size, number(3.0));
}

#[test]
fn a_pipe_hands_on_every_chunk_once_and_in_order() {
    let mut p = piping(9);
    let mut pipe = p.begin(options());
    for chunk in [10, 11, 12] {
        p.source.enqueue_chunk(&mut p.scope, &Value::Handle(chunk));
    }
    p.take();
    let mut written = Vec::new();
    for promise in 1..=5 {
        pipe.pipe_ready_fulfilled(&mut p.scope, &mut p.source);
        if promise > 3 {
            p.source.enqueue_chunk(&mut p.scope, &Value::Handle(9 + promise));
        }
        let chunk = p.take().into_iter().find_map(|effect| match effect {
            Effect::ReadSteps(ReadRequest::Pipe { .. }, ReadOutcome::Chunk(chunk)) => Some(chunk),
            _ => None,
        });
        let chunk = chunk.unwrap_or_else(|| panic!("the source has a chunk"));
        pipe.pipe_read_request_chunk_steps(&mut p.scope, chunk);
        p.write(&mut pipe, promise);
        if promise == 2 {
            p.dest.ws_write_promise_fulfilled(&mut p.scope);
        }
        written.extend(p.take().into_iter().filter_map(|effect| match effect {
            Effect::Invoke { call: Call::WritableWrite { chunk, .. }, .. } => Some(chunk),
            _ => None,
        }));
    }
    for _ in 0..4 {
        p.dest.ws_write_promise_fulfilled(&mut p.scope);
    }
    written.extend(p.take().into_iter().filter_map(|effect| match effect {
        Effect::Invoke { call: Call::WritableWrite { chunk, .. }, .. } => Some(chunk),
        _ => None,
    }));
    let given: Vec<Value> = [10, 11, 12, 13, 14].map(Value::Handle).into_iter().collect();
    assert_eq!(written, given);
    assert!(p.dest.controller.queue.is_empty());
}
