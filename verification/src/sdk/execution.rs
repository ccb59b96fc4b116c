//! How a request goes on from one answer of its session to the next.

use vstd::prelude::*;

use crate::backend::Signal;
use crate::lifecycle::SessionState;
use crate::output::{ChunkView, OutputChunk, OutputRead};
use crate::sdk::{
    ExecutionPageResult, ExecutionResult, IoRequest, IoResult, SdkError, SdkErrorView,
    MAX_IO_OUTPUT_READ_BYTES,
};
use crate::session::finish::{SessionStatus, StatusView};
use crate::session::handle::{SessionError, SessionErrorView};
use crate::time::Duration;

verus! {

/// What a stop comes to: a wait that failed comes first, then a stop that was refused.
pub open spec fn settled_of(
    stop_error: Option<SessionErrorView>,
    waited: Result<StatusView, SessionErrorView>,
) -> Result<StatusView, SdkErrorView> {
    match (waited, stop_error) {
        (Err(error), _) => Err(SdkErrorView::Session(error)),
        (Ok(_), Some(error)) => Err(SdkErrorView::Session(error)),
        (Ok(status), None) => Ok(status),
    }
}

/// Puts together what a stop came to.
pub fn settle_stop(
    stop_error: Option<SessionError>,
    waited: Result<SessionStatus, SessionError>,
) -> (settled: Result<SessionStatus, SdkError>)
    ensures
        match settled {
            Ok(status) => stop_error is None && waited == Ok::<SessionStatus, SessionError>(status),
            Err(error) => match (waited, stop_error) {
                (Err(reason), _) => error == SdkError::Session(reason),
                (Ok(_), Some(reason)) => error == SdkError::Session(reason),
                (Ok(_), None) => false,
            },
        },
        settled_of(
            match stop_error {
                Some(error) => Some(error@),
                None => None,
            },
            crate::session::handle::waited_view(waited),
        ) == (match settled {
            Ok(status) => Ok::<StatusView, SdkErrorView>(status@),
            Err(error) => Err::<StatusView, SdkErrorView>(error@),
        }),
{
    match waited {
        Err(error) => Err(SdkError::Session(error)),
        Ok(status) => match stop_error {
            Some(error) => Err(SdkError::Session(error)),
            None => Ok(status),
        },
    }
}

/// Of the failures of several cleanups, the first is reported.
pub fn first_error(first: Option<SdkError>, next: Result<(), SdkError>) -> (kept: Option<SdkError>)
    ensures
        kept == (match (first, next) {
            (Some(error), _) => Some(error),
            (None, Err(error)) => Some(error),
            (None, Ok(())) => None,
        }),
{
    match first {
        Some(error) => Some(error),
        None => match next {
            Err(error) => Some(error),
            Ok(()) => None,
        },
    }
}

/// Where a start that can be cancelled stands.
#[derive(Debug, Clone, Copy, PartialEq, Eq, Structural)]
pub enum StartPhase {
    /// Nothing was done yet.
    Asked,
    Starting,
    /// It was cancelled while it was being started.
    Abandoned,
    /// It was started after all, and is being stopped again.
    Stopping,
    Over,
}

/// What happens to a start that can be cancelled.
pub enum StartEvent {
    /// Whether it was cancelled before anything was done.
    Checked { cancelled: bool },
    Cancelled,
    /// The session was started, or could not be; `cancelled` tells whether a cancellation has come
    /// in meanwhile.
    Started { failed: Option<SessionError>, cancelled: bool },
    /// The session was stopped again.
    Stopped(Result<SessionStatus, SdkError>),
}

/// What is to be done next.
pub enum StartAction {
    Start,
    /// The session is still to come.
    AwaitStart,
    Stop,
    /// The session is running and belongs to the caller.
    HandOver,
    Fail(SdkError),
}

pub open spec fn start_expects(phase: StartPhase, event: StartEvent) -> bool {
    match (phase, event) {
        (StartPhase::Asked, StartEvent::Checked { .. }) => true,
        (StartPhase::Starting, StartEvent::Cancelled) => true,
        (StartPhase::Starting, StartEvent::Started { .. }) => true,
        (StartPhase::Abandoned, StartEvent::Started { .. }) => true,
        (StartPhase::Stopping, StartEvent::Stopped(_)) => true,
        _ => false,
    }
}

pub open spec fn start_step(phase: StartPhase, event: StartEvent) -> (StartPhase, StartAction) {
    match event {
        StartEvent::Checked { cancelled } => if cancelled {
            (StartPhase::Over, StartAction::Fail(SdkError::RequestCancelled))
        } else {
            (StartPhase::Starting, StartAction::Start)
        },
        StartEvent::Cancelled => (StartPhase::Abandoned, StartAction::AwaitStart),
        StartEvent::Started { failed, cancelled } => match failed {
            Some(error) => (StartPhase::Over, StartAction::Fail(SdkError::Session(error))),
            None => if cancelled || phase == StartPhase::Abandoned {
                (StartPhase::Stopping, StartAction::Stop)
            } else {
                (StartPhase::Over, StartAction::HandOver)
            },
        },
        StartEvent::Stopped(result) => (
            StartPhase::Over,
            StartAction::Fail(
                match result {
                    Ok(_) => SdkError::RequestCancelled,
                    Err(error) => error,
                },
            ),
        ),
    }
}

impl StartPhase {
    /// Takes an event that belongs to the phase.
    pub fn step(self, event: StartEvent) -> (next: (StartPhase, StartAction))
        requires
            start_expects(self, event),
        ensures
            next == start_step(self, event),
    {
        match event {
            StartEvent::Checked { cancelled } => {
                if cancelled {
                    (StartPhase::Over, StartAction::Fail(SdkError::RequestCancelled))
                } else {
                    (StartPhase::Starting, StartAction::Start)
                }
            },
            StartEvent::Cancelled => (StartPhase::Abandoned, StartAction::AwaitStart),
            StartEvent::Started { failed, cancelled } => match failed {
                Some(error) => (StartPhase::Over, StartAction::Fail(SdkError::Session(error))),
                None => {
                    if cancelled || self == StartPhase::Abandoned {
                        (StartPhase::Stopping, StartAction::Stop)
                    } else {
                        (StartPhase::Over, StartAction::HandOver)
                    }
                },
            },
            StartEvent::Stopped(result) => (
                StartPhase::Over,
                StartAction::Fail(
                    match result {
                        Ok(_) => SdkError::RequestCancelled,
                        Err(error) => error,
                    },
                ),
            ),
        }
    }
}

/// A start that is reported as cancelled leaves no session behind: either none was begun, or it
/// was stopped before the report.
pub proof fn law_cancelled_start_leaves_no_session(phase: StartPhase, event: StartEvent)
    requires
        start_expects(phase, event),
        start_step(phase, event).1 == StartAction::Fail(SdkError::RequestCancelled),
    ensures
        phase == StartPhase::Asked || phase == StartPhase::Stopping,
        phase == StartPhase::Stopping ==> event is Stopped,
{
}

/// A start that was cancelled never hands its session over.
pub proof fn law_cancelled_start_is_not_handed_over(event: StartEvent)
    requires
        start_expects(StartPhase::Abandoned, event),
    ensures
        !(start_step(StartPhase::Abandoned, event).1 is HandOver),
{
}

/// How a read of a session's output ended.
pub enum ReadEnd {
    Page(OutputRead),
    /// What is at the cursor is no longer kept.
    Expired { earliest: u64 },
    Failed(SessionError),
}

/// The output of a session, collected page by page.
#[derive(Debug)]
pub struct OutputCollector {
    pub chunks: Vec<OutputChunk>,
    /// Where the next page begins.
    pub cursor: u64,
    pub truncated: bool,
}

/// How a collection goes on.
#[derive(Debug)]
pub enum CollectStep {
    /// The next page is to be read at the cursor.
    Read(OutputCollector),
    Done(OutputRead),
    Fail(SdkError),
    /// What is at the cursor is no longer kept, though earlier output was.
    Lost,
}

/// How a collection goes on, over what was collected.
pub enum CollectView {
    Read { chunks: Seq<OutputChunk>, cursor: u64, truncated: bool },
    Done { chunks: Seq<OutputChunk>, cursor: u64, truncated: bool },
    Fail(SdkError),
    Lost,
}

impl View for CollectStep {
    type V = CollectView;

    open spec fn view(&self) -> CollectView {
        match *self {
            CollectStep::Read(next) => CollectView::Read {
                chunks: next.chunks@,
                cursor: next.cursor,
                truncated: next.truncated,
            },
            CollectStep::Done(read) => CollectView::Done {
                chunks: read.chunks@,
                cursor: read.next_cursor,
                truncated: read.truncated,
            },
            CollectStep::Fail(error) => CollectView::Fail(error),
            CollectStep::Lost => CollectView::Lost,
        }
    }
}

/// How a collection goes on after a read at its cursor.
pub open spec fn collected(
    chunks: Seq<OutputChunk>,
    cursor: u64,
    truncated: bool,
    end: ReadEnd,
) -> CollectView {
    match end {
        ReadEnd::Page(page) => if page.next_cursor == cursor {
            CollectView::Done {
                chunks: chunks + page.chunks@,
                cursor,
                truncated: truncated || page.truncated,
            }
        } else {
            CollectView::Read {
                chunks: chunks + page.chunks@,
                cursor: page.next_cursor,
                truncated: truncated || page.truncated,
            }
        },
        ReadEnd::Expired { earliest } => if chunks.len() == 0 {
            CollectView::Read { chunks, cursor: earliest, truncated }
        } else {
            CollectView::Lost
        },
        ReadEnd::Failed(error) => CollectView::Fail(SdkError::Session(error)),
    }
}

fn append_chunks(chunks: &mut Vec<OutputChunk>, more: Vec<OutputChunk>)
    ensures
        final(chunks)@ == old(chunks)@ + more@,
{
    let mut more = more;
    chunks.append(&mut more);
}

impl OutputCollector {
    pub fn new() -> (collector: OutputCollector)
        ensures
            collector.chunks@.len() == 0,
            collector.cursor == 0,
            !collector.truncated,
    {
        OutputCollector { chunks: Vec::new(), cursor: 0, truncated: false }
    }

    /// Takes the end of a read at the cursor.  A page that does not move the cursor is the last;
    /// an expired cursor is moved as long as nothing was collected.
    pub fn step(self, end: ReadEnd) -> (step: CollectStep)
        ensures
            step@ == collected(self.chunks@, self.cursor, self.truncated, end),
            match end {
                ReadEnd::Page(page) => if page.next_cursor == self.cursor {
                    &&& step matches CollectStep::Done(read)
                    &&& read.chunks@ == self.chunks@ + page.chunks@
                    &&& read.next_cursor == self.cursor
                    &&& read.truncated == (self.truncated || page.truncated)
                } else {
                    &&& step matches CollectStep::Read(next)
                    &&& next.chunks@ == self.chunks@ + page.chunks@
                    &&& next.cursor == page.next_cursor
                    &&& next.truncated == (self.truncated || page.truncated)
                },
                ReadEnd::Expired { earliest } => if self.chunks@.len() == 0 {
                    &&& step matches CollectStep::Read(next)
                    &&& next.chunks@.len() == 0
                    &&& next.cursor == earliest
                    &&& next.truncated == self.truncated
                } else {
                    step is Lost
                },
                ReadEnd::Failed(error) => step == CollectStep::Fail(SdkError::Session(error)),
            },
    {
        match end {
            ReadEnd::Page(page) => {
                let mut chunks = self.chunks;
                let truncated: bool = self.truncated || page.truncated;
                append_chunks(&mut chunks, page.chunks);
                if page.next_cursor == self.cursor {
                    CollectStep::Done(OutputRead { chunks, next_cursor: self.cursor, truncated })
                } else {
                    CollectStep::Read(
                        OutputCollector { chunks, cursor: page.next_cursor, truncated },
                    )
                }
            },
            ReadEnd::Expired { earliest } => {
                if self.chunks.len() == 0 {
                    CollectStep::Read(
                        OutputCollector {
                            chunks: self.chunks,
                            cursor: earliest,
                            truncated: self.truncated,
                        },
                    )
                } else {
                    CollectStep::Lost
                }
            },
            ReadEnd::Failed(error) => CollectStep::Fail(SdkError::Session(error)),
        }
    }
}

/// Pages without gaps make an output without gaps, which holds what the pages hold.
pub proof fn law_collected_output_has_no_gaps(
    collected: Seq<ChunkView>,
    page: Seq<ChunkView>,
    from: int,
    cursor: int,
    next: int,
)
    requires
        crate::output::gapless(collected, from, cursor),
        crate::output::gapless(page, cursor, next),
    ensures
        crate::output::gapless(collected + page, from, next),
        crate::output::bytes_of(collected + page) == crate::output::bytes_of(collected)
            + crate::output::bytes_of(page),
    decreases page.len(),
{
    if page.len() == 0 {
        assert(collected + page =~= collected);
        assert(crate::output::bytes_of(collected) + crate::output::bytes_of(page)
            =~= crate::output::bytes_of(collected));
    } else {
        law_collected_output_has_no_gaps(
            collected,
            page.drop_last(),
            from,
            cursor,
            page.last().cursor,
        );
        assert((collected + page).drop_last() =~= collected + page.drop_last());
        assert((collected + page).last() == page.last());
        assert(crate::output::bytes_of(collected + page) =~= crate::output::bytes_of(collected)
            + crate::output::bytes_of(page));
    }
}

/// Whether an execution fails because its input could not be closed: not where its session is
/// dead already.
pub fn stdin_refusal(closed: Result<(), SessionError>, state: SessionState) -> (refusal: Option<
    SdkError,
>)
    ensures
        match refusal {
            Some(error) => closed matches Err(own) && state != SessionState::Dead && error
                == SdkError::Session(own),
            None => closed is Ok || state == SessionState::Dead,
        },
{
    match closed {
        Ok(()) => None,
        Err(error) => {
            if state == SessionState::Dead {
                None
            } else {
                Some(SdkError::Session(error))
            }
        },
    }
}

/// The result of an execution that ended with a status and left an output.
pub fn finish_execution(status: SessionStatus, output: OutputRead) -> (result: ExecutionResult)
    ensures
        result.status == status,
        result.output == output.chunks,
        result.next_cursor == output.next_cursor,
        result.truncated == output.truncated,
{
    ExecutionResult {
        status,
        output: output.chunks,
        next_cursor: output.next_cursor,
        truncated: output.truncated,
    }
}

/// Where an execution whose output is kept stands.
pub enum RetainedPhase {
    /// Its input is being closed.
    Closing,
    Waiting,
    /// It is being removed; then the execution fails with the error.
    Removing(SdkError),
    /// Its output is awaited.
    Ended(SessionStatus),
    /// Its output is read from the start.
    Reading { status: SessionStatus, output_next_cursor: u64 },
    /// Its output is read from the earliest position that is kept.
    Rereading { status: SessionStatus, output_next_cursor: u64 },
    Over,
}

/// What happens to an execution whose output is kept.
pub enum RetainedEvent {
    StdinClosed,
    /// The input could not be closed; `state` is the state of the session now.
    StdinRefused { error: SessionError, state: SessionState },
    Cancelled,
    Finished(Result<SessionStatus, SessionError>),
    /// The session was removed, or could not be.
    Removed(Result<(), SdkError>),
    /// The end of the output is known.
    OutputEnd(Result<u64, SessionError>),
    Read(ReadEnd),
}

/// What is to be done next.
pub enum RetainedAction {
    AwaitEnd,
    Remove,
    /// The session is forgotten at once, and the execution fails.
    Forget(SdkError),
    AwaitOutput,
    ReadAt(u64),
    Done(ExecutionPageResult),
    Fail(SdkError),
    /// What is at the cursor is no longer kept.
    Lost,
}

pub open spec fn retained_expects(phase: RetainedPhase, event: RetainedEvent) -> bool {
    match (phase, event) {
        (RetainedPhase::Closing, RetainedEvent::StdinClosed) => true,
        (RetainedPhase::Closing, RetainedEvent::StdinRefused { .. }) => true,
        (RetainedPhase::Waiting, RetainedEvent::Cancelled) => true,
        (RetainedPhase::Waiting, RetainedEvent::Finished(_)) => true,
        (RetainedPhase::Removing(_), RetainedEvent::Removed(_)) => true,
        (RetainedPhase::Ended(_), RetainedEvent::OutputEnd(_)) => true,
        (RetainedPhase::Reading { .. }, RetainedEvent::Read(_)) => true,
        (RetainedPhase::Rereading { .. }, RetainedEvent::Read(_)) => true,
        _ => false,
    }
}

pub open spec fn retained_step(phase: RetainedPhase, event: RetainedEvent) -> (
    RetainedPhase,
    RetainedAction,
) {
    match (phase, event) {
        (RetainedPhase::Closing, RetainedEvent::StdinRefused { error, state }) => {
            if state != SessionState::Dead {
                (RetainedPhase::Removing(SdkError::Session(error)), RetainedAction::Remove)
            } else {
                (RetainedPhase::Waiting, RetainedAction::AwaitEnd)
            }
        },
        (RetainedPhase::Closing, _) => (RetainedPhase::Waiting, RetainedAction::AwaitEnd),
        (RetainedPhase::Waiting, RetainedEvent::Finished(Ok(status))) => (
            RetainedPhase::Ended(status),
            RetainedAction::AwaitOutput,
        ),
        (RetainedPhase::Waiting, RetainedEvent::Finished(Err(error))) => (
            RetainedPhase::Over,
            RetainedAction::Forget(SdkError::Session(error)),
        ),
        (RetainedPhase::Waiting, _) => (
            RetainedPhase::Removing(SdkError::RequestCancelled),
            RetainedAction::Remove,
        ),
        (RetainedPhase::Removing(reason), RetainedEvent::Removed(Err(error))) => (
            RetainedPhase::Over,
            RetainedAction::Fail(error),
        ),
        (RetainedPhase::Removing(reason), _) => (
            RetainedPhase::Over,
            RetainedAction::Fail(reason),
        ),
        (RetainedPhase::Ended(status), RetainedEvent::OutputEnd(Ok(output_next_cursor))) => (
            RetainedPhase::Reading { status, output_next_cursor },
            RetainedAction::ReadAt(0),
        ),
        (_, RetainedEvent::OutputEnd(Err(error))) => (
            RetainedPhase::Over,
            RetainedAction::Fail(SdkError::Session(error)),
        ),
        (
            RetainedPhase::Reading { status, output_next_cursor },
            RetainedEvent::Read(ReadEnd::Expired { earliest }),
        ) => (
            RetainedPhase::Rereading { status, output_next_cursor },
            RetainedAction::ReadAt(earliest),
        ),
        (
            RetainedPhase::Reading { status, output_next_cursor },
            RetainedEvent::Read(ReadEnd::Page(page)),
        ) => (
            RetainedPhase::Over,
            RetainedAction::Done(page_result(status, output_next_cursor, page)),
        ),
        (
            RetainedPhase::Rereading { status, output_next_cursor },
            RetainedEvent::Read(ReadEnd::Page(page)),
        ) => (
            RetainedPhase::Over,
            RetainedAction::Done(page_result(status, output_next_cursor, page)),
        ),
        (_, RetainedEvent::Read(ReadEnd::Failed(error))) => (
            RetainedPhase::Over,
            RetainedAction::Fail(SdkError::Session(error)),
        ),
        _ => (RetainedPhase::Over, RetainedAction::Lost),
    }
}

pub open spec fn page_result(
    status: SessionStatus,
    output_next_cursor: u64,
    page: OutputRead,
) -> ExecutionPageResult {
    ExecutionPageResult {
        status,
        output: page.chunks,
        next_cursor: page.next_cursor,
        output_next_cursor,
        truncated: page.truncated,
    }
}

impl RetainedPhase {
    /// Takes an event that belongs to the phase.
    pub fn step(self, event: RetainedEvent) -> (next: (RetainedPhase, RetainedAction))
        requires
            retained_expects(self, event),
        ensures
            next == retained_step(self, event),
    {
        match (self, event) {
            (RetainedPhase::Closing, RetainedEvent::StdinRefused { error, state }) => {
                if state != SessionState::Dead {
                    (RetainedPhase::Removing(SdkError::Session(error)), RetainedAction::Remove)
                } else {
                    (RetainedPhase::Waiting, RetainedAction::AwaitEnd)
                }
            },
            (RetainedPhase::Closing, _) => (RetainedPhase::Waiting, RetainedAction::AwaitEnd),
            (RetainedPhase::Waiting, RetainedEvent::Finished(Ok(status))) => (
                RetainedPhase::Ended(status),
                RetainedAction::AwaitOutput,
            ),
            (RetainedPhase::Waiting, RetainedEvent::Finished(Err(error))) => (
                RetainedPhase::Over,
                RetainedAction::Forget(SdkError::Session(error)),
            ),
            (RetainedPhase::Waiting, _) => (
                RetainedPhase::Removing(SdkError::RequestCancelled),
                RetainedAction::Remove,
            ),
            (RetainedPhase::Removing(_), RetainedEvent::Removed(Err(error))) => (
                RetainedPhase::Over,
                RetainedAction::Fail(error),
            ),
            (RetainedPhase::Removing(reason), _) => (
                RetainedPhase::Over,
                RetainedAction::Fail(reason),
            ),
            (RetainedPhase::Ended(status), RetainedEvent::OutputEnd(Ok(output_next_cursor))) => (
                RetainedPhase::Reading { status, output_next_cursor },
                RetainedAction::ReadAt(0),
            ),
            (_, RetainedEvent::OutputEnd(Err(error))) => (
                RetainedPhase::Over,
                RetainedAction::Fail(SdkError::Session(error)),
            ),
            (
                RetainedPhase::Reading { status, output_next_cursor },
                RetainedEvent::Read(ReadEnd::Expired { earliest }),
            ) => (
                RetainedPhase::Rereading { status, output_next_cursor },
                RetainedAction::ReadAt(earliest),
            ),
            (
                RetainedPhase::Reading { status, output_next_cursor },
                RetainedEvent::Read(ReadEnd::Page(page)),
            ) => (
                RetainedPhase::Over,
                RetainedAction::Done(
                    ExecutionPageResult {
                        status,
                        output: page.chunks,
                        next_cursor: page.next_cursor,
                        output_next_cursor,
                        truncated: page.truncated,
                    },
                ),
            ),
            (
                RetainedPhase::Rereading { status, output_next_cursor },
                RetainedEvent::Read(ReadEnd::Page(page)),
            ) => (
                RetainedPhase::Over,
                RetainedAction::Done(
                    ExecutionPageResult {
                        status,
                        output: page.chunks,
                        next_cursor: page.next_cursor,
                        output_next_cursor,
                        truncated: page.truncated,
                    },
                ),
            ),
            (_, RetainedEvent::Read(ReadEnd::Failed(error))) => (
                RetainedPhase::Over,
                RetainedAction::Fail(SdkError::Session(error)),
            ),
            _ => (RetainedPhase::Over, RetainedAction::Lost),
        }
    }
}

/// An execution that is cancelled, or whose input cannot be closed, is reported only after its
/// session was removed.
pub proof fn law_cancelled_execution_is_removed(phase: RetainedPhase, event: RetainedEvent)
    requires
        retained_expects(phase, event),
    ensures
        event is Cancelled ==> retained_step(phase, event).1 is Remove,
        retained_step(phase, event).1 == RetainedAction::Fail(SdkError::RequestCancelled)
            && phase is Removing ==> event is Removed,
        phase is Waiting ==> !(retained_step(phase, event).1 is Fail),
{
}

/// One thing that an exchange with a session does.
pub enum IoStep {
    Write(Vec<u8>),
    CloseStdin,
    Resize(u16, u16),
    Signal(Signal),
    /// The cursor has to be one at which output can be read.
    CheckCursor(u64),
    /// New output or the end of the session is awaited, for a time.
    AwaitChange { cursor: u64, limit: Duration },
    Read { cursor: u64, max_bytes: usize },
}

pub open spec fn write_steps(request: IoRequest) -> Seq<IoStep> {
    match request.stdin {
        Some(input) => seq![IoStep::Write(input)],
        None => Seq::empty(),
    }
}

pub open spec fn close_steps(request: IoRequest) -> Seq<IoStep> {
    if request.close_stdin {
        seq![IoStep::CloseStdin]
    } else {
        Seq::empty()
    }
}

pub open spec fn resize_steps(resize: Option<(u16, u16)>) -> Seq<IoStep> {
    match resize {
        Some(size) => seq![IoStep::Resize(size.0, size.1)],
        None => Seq::empty(),
    }
}

pub open spec fn signal_steps(signal: Option<Signal>) -> Seq<IoStep> {
    match signal {
        Some(signal) => seq![IoStep::Signal(signal)],
        None => Seq::empty(),
    }
}

pub open spec fn wait_steps(cursor: u64, wait_timeout: Option<Duration>) -> Seq<IoStep> {
    match wait_timeout {
        Some(limit) => seq![
            IoStep::CheckCursor(cursor),
            IoStep::AwaitChange { cursor, limit },
        ],
        None => Seq::empty(),
    }
}

/// What an exchange does, in this order: input is written before it is closed, and output is read
/// last.
pub open spec fn io_steps_spec(request: IoRequest) -> Seq<IoStep> {
    write_steps(request) + close_steps(request) + resize_steps(request.resize) + signal_steps(
        request.signal,
    ) + wait_steps(request.cursor, request.wait_timeout) + seq![
        IoStep::Read { cursor: request.cursor, max_bytes: request.max_bytes },
    ]
}

fn push_step(steps: &mut Vec<IoStep>, step: IoStep)
    ensures
        final(steps)@ == old(steps)@ + seq![step],
{
    let ghost before = steps@;
    steps.push(step);
    assert(steps@ =~= before + seq![step]);
}

fn push_control(steps: &mut Vec<IoStep>, resize: Option<(u16, u16)>, signal: Option<Signal>)
    ensures
        final(steps)@ == old(steps)@ + resize_steps(resize) + signal_steps(signal),
{
    match resize {
        Some(size) => {
            push_step(steps, IoStep::Resize(size.0, size.1));
        },
        None => {
            assert(steps@ + Seq::empty() =~= steps@);
        },
    }
    match signal {
        Some(signal) => {
            push_step(steps, IoStep::Signal(signal));
        },
        None => {
            assert(steps@ + Seq::empty() =~= steps@);
        },
    }
}

fn push_wait(steps: &mut Vec<IoStep>, cursor: u64, wait_timeout: Option<Duration>)
    ensures
        final(steps)@ == old(steps)@ + wait_steps(cursor, wait_timeout),
{
    let ghost before = steps@;
    match wait_timeout {
        Some(limit) => {
            steps.push(IoStep::CheckCursor(cursor));
            steps.push(IoStep::AwaitChange { cursor, limit });
            assert(steps@ =~= before + wait_steps(cursor, wait_timeout));
        },
        None => {
            assert(before + Seq::empty() =~= before);
        },
    }
}

/// Plans an exchange with a session; one that asks for too much output does nothing at all.
pub fn io_steps(request: IoRequest) -> (steps: Result<Vec<IoStep>, SdkError>)
    ensures
        match steps {
            Ok(list) => request.max_bytes <= MAX_IO_OUTPUT_READ_BYTES && list@ == io_steps_spec(
                request,
            ),
            Err(error) => request.max_bytes > MAX_IO_OUTPUT_READ_BYTES && error@
                == (SdkErrorView::OutputReadTooLarge {
                requested: request.max_bytes,
                maximum: MAX_IO_OUTPUT_READ_BYTES,
            }),
        },
{
    if request.max_bytes > MAX_IO_OUTPUT_READ_BYTES {
        return Err(
            SdkError::OutputReadTooLarge {
                requested: request.max_bytes,
                maximum: MAX_IO_OUTPUT_READ_BYTES,
            },
        );
    }
    let ghost whole = request;
    let mut steps: Vec<IoStep> = Vec::new();
    match request.stdin {
        Some(input) => {
            steps.push(IoStep::Write(input));
        },
        None => {},
    }
    assert(steps@ =~= write_steps(whole));
    if request.close_stdin {
        push_step(&mut steps, IoStep::CloseStdin);
    }
    assert(steps@ == write_steps(whole) + close_steps(whole)) by {
        assert(write_steps(whole) + Seq::empty() =~= write_steps(whole));
    }
    push_control(&mut steps, request.resize, request.signal);
    push_wait(&mut steps, request.cursor, request.wait_timeout);
    push_step(
        &mut steps,
        IoStep::Read { cursor: request.cursor, max_bytes: request.max_bytes },
    );
    Ok(steps)
}

/// The result of an exchange.  `completion` is what a wait for a session that is dead came to: its
/// failure takes the place of the result.
pub fn finish_io(
    status: SessionStatus,
    output: OutputRead,
    wait_timed_out: bool,
    completion: Option<SessionError>,
) -> (result: Result<IoResult, SdkError>)
    ensures
        result == (match completion {
            Some(error) => Err::<IoResult, SdkError>(SdkError::Session(error)),
            None => Ok::<IoResult, SdkError>(
                IoResult {
                    status,
                    output: output.chunks,
                    next_cursor: output.next_cursor,
                    truncated: output.truncated,
                    wait_timed_out,
                },
            ),
        }),
{
    match completion {
        Some(error) => Err(SdkError::Session(error)),
        None => Ok(
            IoResult {
                status,
                output: output.chunks,
                next_cursor: output.next_cursor,
                truncated: output.truncated,
                wait_timed_out,
            },
        ),
    }
}

} // verus!
