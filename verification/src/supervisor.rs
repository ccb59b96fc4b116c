//! One command from its start to its report.

use vstd::prelude::*;

use crate::backend::{
    Backend, BackendCapabilities, BackendError, BackendErrorView, Signal,
    StartupMetrics,
};
use crate::budget::{RunStage, StageTiming};
use crate::lifecycle::{LifecycleError, SessionState, TerminationReason};
use crate::output::OutputChunk;
use crate::session::finish::{IoFailureView, SessionIoFailure, SessionStatus, StatusView};
use crate::session::handle::{SessionError, SessionErrorView};
use crate::text::join;
use crate::trace::TraceEvent;

verus! {

/// Runs commands with one backend.
pub struct Supervisor<B> {
    pub backend: B,
}

impl<B: Backend> Supervisor<B> {
    pub fn new(backend: B) -> (supervisor: Supervisor<B>)
        ensures
            supervisor.backend == backend,
    {
        Supervisor { backend }
    }

    pub fn backend_name(&self) -> (name: &'static str)
        ensures
            name@ == self.backend.name_spec(),
    {
        self.backend.name()
    }

    pub fn backend_capabilities(&self) -> (capabilities: BackendCapabilities)
        ensures
            capabilities == self.backend.capabilities_spec(),
    {
        self.backend.capabilities()
    }
}

#[derive(Debug)]
pub enum SupervisorError {
    Backend(BackendError),
    Lifecycle(LifecycleError),
    Io(String),
    SessionIo(SessionIoFailure),
    Session(SessionError),
    Cleanup(String),
}

pub enum SupervisorErrorView {
    Backend(BackendErrorView),
    Lifecycle(LifecycleError),
    Io(Seq<char>),
    SessionIo(IoFailureView),
    Session(SessionErrorView),
    Cleanup(Seq<char>),
}

impl View for SupervisorError {
    type V = SupervisorErrorView;

    open spec fn view(&self) -> SupervisorErrorView {
        match *self {
            SupervisorError::Backend(error) => SupervisorErrorView::Backend(error@),
            SupervisorError::Lifecycle(error) => SupervisorErrorView::Lifecycle(error),
            SupervisorError::Io(text) => SupervisorErrorView::Io(text@),
            SupervisorError::SessionIo(failure) => SupervisorErrorView::SessionIo(failure@),
            SupervisorError::Session(error) => SupervisorErrorView::Session(error@),
            SupervisorError::Cleanup(text) => SupervisorErrorView::Cleanup(text@),
        }
    }
}

impl SupervisorErrorView {
    pub open spec fn text(self) -> Seq<char> {
        match self {
            SupervisorErrorView::Backend(error) => error.text(),
            SupervisorErrorView::Lifecycle(error) => error.text_spec(),
            SupervisorErrorView::Io(text) => "supervisor I/O failed: "@ + text,
            SupervisorErrorView::SessionIo(failure) => failure.text(),
            SupervisorErrorView::Session(error) => error.text(),
            SupervisorErrorView::Cleanup(text) => "backend cleanup failed: "@ + text,
        }
    }
}

impl SupervisorError {
    pub fn message(&self) -> (text: String)
        ensures
            text@ == self@.text(),
    {
        match self {
            SupervisorError::Backend(error) => error.message(),
            SupervisorError::Lifecycle(error) => error.message(),
            SupervisorError::Io(text) => join("supervisor I/O failed: ", text.as_str()),
            SupervisorError::SessionIo(failure) => failure.text(),
            SupervisorError::Session(error) => error.message(),
            SupervisorError::Cleanup(text) => join("backend cleanup failed: ", text.as_str()),
        }
    }
}

/// The error of a session that could not be started.
pub open spec fn start_error(error: SessionErrorView) -> SupervisorErrorView {
    match error {
        SessionErrorView::Backend(inner) => SupervisorErrorView::Backend(inner),
        SessionErrorView::Lifecycle(inner) => SupervisorErrorView::Lifecycle(inner),
        other => SupervisorErrorView::Session(other),
    }
}

/// The error of a session that could not be started.
pub fn map_session_start(error: SessionError) -> (mapped: SupervisorError)
    ensures
        mapped@ == start_error(error@),
{
    match error {
        SessionError::Backend(inner) => SupervisorError::Backend(inner),
        SessionError::Lifecycle(inner) => SupervisorError::Lifecycle(inner),
        other => SupervisorError::Session(other),
    }
}

/// The error of a wait that failed: a pump's failure stands by itself, and any other gives way to
/// what the session says of its own cleanup.
pub open spec fn wait_error(
    error: SessionErrorView,
    terminal: Option<Seq<char>>,
) -> SupervisorErrorView {
    match (error, terminal) {
        (SessionErrorView::Io(failure), _) => SupervisorErrorView::SessionIo(failure),
        (_, Some(details)) => SupervisorErrorView::Cleanup(details),
        (other, None) => SupervisorErrorView::Session(other),
    }
}

/// What a wait for the end of a session comes to; `terminal` is what the session says of its own
/// cleanup.
pub fn map_session_wait(
    result: Result<SessionStatus, SessionError>,
    terminal: Option<String>,
) -> (mapped: Result<SessionStatus, SupervisorError>)
    ensures
        match (result, mapped) {
            (Ok(status), Ok(same)) => same == status,
            (Err(error), Err(given)) => given@ == wait_error(
                error@,
                crate::text::text_of(terminal),
            ),
            _ => false,
        },
{
    match result {
        Ok(status) => Ok(status),
        Err(SessionError::Io(failure)) => Err(SupervisorError::SessionIo(failure)),
        Err(error) => match terminal {
            Some(details) => Err(SupervisorError::Cleanup(details)),
            None => Err(SupervisorError::Session(error)),
        },
    }
}

/// What is left of a command's output.
#[derive(Debug)]
pub struct RetainedOutput {
    pub chunks: Vec<OutputChunk>,
    pub earliest_cursor: u64,
    pub next_cursor: u64,
    pub truncated: bool,
}

/// The trace of a session and what was recorded of its stages.
#[derive(Debug)]
pub struct SessionRecord {
    pub startup: StartupMetrics,
    pub trace: Vec<TraceEvent>,
    pub stages: Vec<StageTiming>,
    pub failure_stage: Option<RunStage>,
}

#[derive(Debug)]
pub struct RunReport {
    pub session_id: String,
    pub backend: String,
    pub state: SessionState,
    pub termination_reason: Option<TerminationReason>,
    pub exit_code: Option<i32>,
    pub signal: Option<i32>,
    pub timed_out: bool,
    pub output: Vec<OutputChunk>,
    pub output_earliest_cursor: u64,
    pub output_next_cursor: u64,
    pub output_truncated: bool,
    pub elapsed_micros: u64,
    pub startup: StartupMetrics,
    pub trace: Vec<TraceEvent>,
    pub stages: Vec<StageTiming>,
    pub failure_stage: Option<RunStage>,
}

/// Makes the report of a session that is over; a session whose cleanup failed has none.
pub fn collect_report(
    status: SessionStatus,
    terminal: Option<String>,
    output: RetainedOutput,
    record: SessionRecord,
) -> (collected: Result<RunReport, SupervisorError>)
    ensures
        match (terminal, collected) {
            (Some(details), Err(error)) => error@ == SupervisorErrorView::Cleanup(details@),
            (None, Ok(report)) => report == (RunReport {
                session_id: status.session_id,
                backend: status.backend,
                state: status.state,
                termination_reason: status.termination_reason,
                exit_code: status.exit_code,
                signal: status.signal,
                timed_out: status.timed_out,
                output: output.chunks,
                output_earliest_cursor: output.earliest_cursor,
                output_next_cursor: output.next_cursor,
                output_truncated: output.truncated,
                elapsed_micros: status.elapsed_micros,
                startup: record.startup,
                trace: record.trace,
                stages: record.stages,
                failure_stage: record.failure_stage,
            }),
            _ => false,
        },
{
    match terminal {
        Some(details) => {
            return Err(SupervisorError::Cleanup(details));
        },
        None => {},
    }
    Ok(
        RunReport {
            session_id: status.session_id,
            backend: status.backend,
            state: status.state,
            termination_reason: status.termination_reason,
            exit_code: status.exit_code,
            signal: status.signal,
            timed_out: status.timed_out,
            output: output.chunks,
            output_earliest_cursor: output.earliest_cursor,
            output_next_cursor: output.next_cursor,
            output_truncated: output.truncated,
            elapsed_micros: status.elapsed_micros,
            startup: record.startup,
            trace: record.trace,
            stages: record.stages,
            failure_stage: record.failure_stage,
        },
    )
}

/// Where a run that can be interrupted stands.
pub enum RunPhase {
    /// The end of the session, or a signal.
    Waiting,
    /// A signal is being handed to the session.
    Signalling,
    /// The session has the grace period to end.
    Grace,
    /// The session is being stopped; then the run fails with the error, if there is one.
    Stopping(Option<SupervisorError>),
    Over,
}

pub enum RunPhaseView {
    Waiting,
    Signalling,
    Grace,
    Stopping(Option<SupervisorErrorView>),
    Over,
}

impl View for RunPhase {
    type V = RunPhaseView;

    open spec fn view(&self) -> RunPhaseView {
        match *self {
            RunPhase::Waiting => RunPhaseView::Waiting,
            RunPhase::Signalling => RunPhaseView::Signalling,
            RunPhase::Grace => RunPhaseView::Grace,
            RunPhase::Stopping(None) => RunPhaseView::Stopping(None),
            RunPhase::Stopping(Some(error)) => RunPhaseView::Stopping(Some(error@)),
            RunPhase::Over => RunPhaseView::Over,
        }
    }
}

/// What happens to a run.
pub enum RunEvent {
    /// A wait for the end of the session is over, with what the session says of its cleanup.
    Ended { result: Result<SessionStatus, SessionError>, terminal: Option<String> },
    SignalArrived(Signal),
    /// No signal can be waited for.
    SignalLost(String),
    SignalSent,
    /// The session did not take the signal; `state` is the state that it is in now.
    SignalRefused { error: SessionError, state: SessionState },
    GraceOver,
}

/// What is to be done next.
pub enum RunAction {
    AwaitEndOrSignal,
    SendSignal(Signal),
    AwaitEndWithinGrace,
    /// Stop the session, unless it is dead, and wait for its end.
    StopAndWait,
    /// The session is over: its report is to be made.
    Collect(SessionStatus),
    Fail(SupervisorError),
}

pub enum RunActionView {
    AwaitEndOrSignal,
    SendSignal(Signal),
    AwaitEndWithinGrace,
    StopAndWait,
    Collect(StatusView),
    Fail(SupervisorErrorView),
}

impl View for RunAction {
    type V = RunActionView;

    open spec fn view(&self) -> RunActionView {
        match *self {
            RunAction::AwaitEndOrSignal => RunActionView::AwaitEndOrSignal,
            RunAction::SendSignal(signal) => RunActionView::SendSignal(signal),
            RunAction::AwaitEndWithinGrace => RunActionView::AwaitEndWithinGrace,
            RunAction::StopAndWait => RunActionView::StopAndWait,
            RunAction::Collect(status) => RunActionView::Collect(status@),
            RunAction::Fail(error) => RunActionView::Fail(error@),
        }
    }
}

/// The end of a run at the end of its session.
pub open spec fn ended_action(
    stopping: Option<Option<SupervisorErrorView>>,
    result: Result<SessionStatus, SessionError>,
    terminal: Option<Seq<char>>,
) -> RunActionView {
    match (result, stopping) {
        (Err(error), _) => RunActionView::Fail(wait_error(error@, terminal)),
        (Ok(status), None) => RunActionView::Collect(status@),
        (Ok(status), Some(failure)) => match (terminal, failure) {
            (Some(details), _) => RunActionView::Fail(SupervisorErrorView::Cleanup(details)),
            (None, Some(error)) => RunActionView::Fail(error),
            (None, None) => RunActionView::Collect(status@),
        },
    }
}

/// Whether an event belongs to a phase.
pub open spec fn run_expects(phase: RunPhaseView, event: RunEvent) -> bool {
    match (phase, event) {
        (RunPhaseView::Waiting, RunEvent::Ended { .. }) => true,
        (RunPhaseView::Waiting, RunEvent::SignalArrived(_)) => true,
        (RunPhaseView::Waiting, RunEvent::SignalLost(_)) => true,
        (RunPhaseView::Signalling, RunEvent::SignalSent) => true,
        (RunPhaseView::Signalling, RunEvent::SignalRefused { .. }) => true,
        (RunPhaseView::Grace, RunEvent::Ended { .. }) => true,
        (RunPhaseView::Grace, RunEvent::GraceOver) => true,
        (RunPhaseView::Stopping(_), RunEvent::Ended { .. }) => true,
        _ => false,
    }
}

/// The next phase and action of a run.
pub open spec fn run_step(phase: RunPhaseView, event: RunEvent) -> (RunPhaseView, RunActionView) {
    match event {
        RunEvent::Ended { result, terminal } => (
            RunPhaseView::Over,
            ended_action(
                match phase {
                    RunPhaseView::Stopping(failure) => Some(failure),
                    _ => None,
                },
                result,
                crate::text::text_of(terminal),
            ),
        ),
        RunEvent::SignalArrived(signal) => (
            RunPhaseView::Signalling,
            RunActionView::SendSignal(signal),
        ),
        RunEvent::SignalLost(text) => (
            RunPhaseView::Stopping(Some(SupervisorErrorView::Io(text@))),
            RunActionView::StopAndWait,
        ),
        RunEvent::SignalSent => (RunPhaseView::Grace, RunActionView::AwaitEndWithinGrace),
        RunEvent::SignalRefused { error, state } => if state == SessionState::Dead {
            (RunPhaseView::Grace, RunActionView::AwaitEndWithinGrace)
        } else {
            (
                RunPhaseView::Stopping(Some(SupervisorErrorView::Session(error@))),
                RunActionView::StopAndWait,
            )
        },
        RunEvent::GraceOver => (RunPhaseView::Stopping(None), RunActionView::StopAndWait),
    }
}

impl RunPhase {
    /// Takes an event that belongs to the phase.
    pub fn step(self, event: RunEvent) -> (next: (RunPhase, RunAction))
        requires
            run_expects(self@, event),
        ensures
            next.0@ == run_step(self@, event).0,
            next.1@ == run_step(self@, event).1,
    {
        match event {
            RunEvent::Ended { result, terminal } => {
                let status = match result {
                    Ok(status) => status,
                    Err(error) => {
                        return match map_session_wait(Err(error), terminal) {
                            Ok(status) => (RunPhase::Over, RunAction::Collect(status)),
                            Err(failure) => (RunPhase::Over, RunAction::Fail(failure)),
                        };
                    },
                };
                let action = match self {
                    RunPhase::Stopping(failure) => match terminal {
                        Some(details) => RunAction::Fail(SupervisorError::Cleanup(details)),
                        None => match failure {
                            Some(error) => RunAction::Fail(error),
                            None => RunAction::Collect(status),
                        },
                    },
                    _ => RunAction::Collect(status),
                };
                (RunPhase::Over, action)
            },
            RunEvent::SignalArrived(signal) => (
                RunPhase::Signalling,
                RunAction::SendSignal(signal),
            ),
            RunEvent::SignalLost(text) => (
                RunPhase::Stopping(Some(SupervisorError::Io(text))),
                RunAction::StopAndWait,
            ),
            RunEvent::SignalSent => (RunPhase::Grace, RunAction::AwaitEndWithinGrace),
            RunEvent::SignalRefused { error, state } => {
                if state == SessionState::Dead {
                    (RunPhase::Grace, RunAction::AwaitEndWithinGrace)
                } else {
                    (
                        RunPhase::Stopping(Some(SupervisorError::Session(error))),
                        RunAction::StopAndWait,
                    )
                }
            },
            RunEvent::GraceOver => (RunPhase::Stopping(None), RunAction::StopAndWait),
        }
    }
}

/// A run never ends before its session: only the end of a wait for the session leads to a report
/// or an error.
pub proof fn law_run_outlives_its_session(phase: RunPhaseView, event: RunEvent)
    ensures
        run_step(phase, event).0 is Over <==> event is Ended,
        run_step(phase, event).1 is Collect || run_step(phase, event).1 is Fail <==> event is Ended,
{
}

/// A signal that cannot be waited for or delivered to a living session fails the run, whatever
/// becomes of the session afterwards.
pub proof fn law_lost_signal_fails_the_run(
    phase: RunPhaseView,
    event: RunEvent,
    result: Result<SessionStatus, SessionError>,
    terminal: Option<String>,
)
    requires
        event is SignalLost || (event is SignalRefused && event->state != SessionState::Dead),
    ensures
        run_step(
            run_step(phase, event).0,
            RunEvent::Ended { result, terminal },
        ).1 is Fail,
{
}

} // verus!
