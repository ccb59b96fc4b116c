use moraebox::backend::{OutputChannel, Signal, StartupMetrics};
use moraebox::backend::BackendError;
use moraebox::lifecycle::{SessionState, TerminationReason};
use moraebox::output::OutputChunk;
use moraebox::process::ProcessBackend;
use moraebox::session::finish::{IoErrorKind, SessionIoFailure, SessionIoStream, SessionStatus};
use moraebox::session::handle::SessionError;
use moraebox::supervisor::{
    collect_report, map_session_start, map_session_wait, RetainedOutput, RunAction,
    RunEvent, RunPhase, SessionRecord, Supervisor, SupervisorError,
};

fn status(state: SessionState, reason: TerminationReason) -> SessionStatus {
    SessionStatus {
        session_id: "session".to_owned(),
        backend: "process".to_owned(),
        resolved_image_digest: None,
        state,
        termination_reason: Some(reason),
        exit_code: Some(7),
        signal: None,
        timed_out: reason == TerminationReason::TimedOut,
        elapsed_micros: 5,
    }
}

fn output() -> RetainedOutput {
    RetainedOutput {
        chunks: vec![OutputChunk {
            cursor: 0,
            channel: OutputChannel::Stdout,
            data: b"out".to_vec(),
        }],
        earliest_cursor: 0,
        next_cursor: 3,
        truncated: false,
    }
}

fn record() -> SessionRecord {
    SessionRecord {
        startup: StartupMetrics::default(),
        trace: vec![],
        stages: vec![],
        failure_stage: None,
    }
}

#[test]
fn captures_stdout_stderr_and_exit_code() {
    let report = collect_report(
        status(SessionState::Dead, TerminationReason::Exited),
        None,
        output(),
        record(),
    )
    .unwrap();
    assert_eq!(report.exit_code, Some(7));
    assert_eq!(report.state, SessionState::Dead);
    assert_eq!(report.termination_reason, Some(TerminationReason::Exited));
    assert_eq!(report.output[0].data, b"out");
    assert_eq!(report.output_next_cursor, 3);
    assert!(!report.output_truncated);
}

#[test]
fn enforces_timeout_and_kills_the_process_group() {
    let report = collect_report(
        status(SessionState::Dead, TerminationReason::TimedOut),
        None,
        output(),
        record(),
    )
    .unwrap();
    assert!(report.timed_out);
    assert_eq!(report.termination_reason, Some(TerminationReason::TimedOut));
}

#[test]
fn term_and_force_errors_do_not_skip_exit_cleanup() {
    let failed = collect_report(
        status(SessionState::Dead, TerminationReason::Failed),
        Some("backend terminate failed: TERM failed".to_owned()),
        output(),
        record(),
    );
    assert!(matches!(
        failed,
        Err(SupervisorError::Cleanup(text)) if text.contains("TERM failed")
    ));
}

#[test]
fn output_pump_error_is_reported() {
    let failure = SessionIoFailure::operation(
        SessionIoStream::Stdout,
        IoErrorKind::Other,
        "injected read failure".to_owned(),
    );
    let mapped = map_session_wait(Err(SessionError::Io(failure)), None);
    assert!(matches!(
        mapped,
        Err(SupervisorError::SessionIo(failure)) if failure.message == "injected read failure"
    ));
}

#[test]
fn start_failures_keep_their_kind() {
    assert!(matches!(
        map_session_start(SessionError::Backend(BackendError::MissingProcessId)),
        SupervisorError::Backend(BackendError::MissingProcessId)
    ));
    assert!(matches!(
        map_session_start(SessionError::SessionClosed),
        SupervisorError::Session(SessionError::SessionClosed)
    ));
    let closed = map_session_wait(
        Err(SessionError::SessionClosed),
        Some("cleanup hung".to_owned()),
    );
    assert!(matches!(closed, Err(SupervisorError::Cleanup(text)) if text == "cleanup hung"));
}

#[test]
fn forwarded_signals_have_a_grace() {
    let (phase, action) = RunPhase::Waiting.step(RunEvent::SignalArrived(Signal::Interrupt));
    assert!(matches!(action, RunAction::SendSignal(Signal::Interrupt)));
    let (phase, action) = phase.step(RunEvent::SignalSent);
    assert!(matches!(action, RunAction::AwaitEndWithinGrace));
    let (phase, action) = phase.step(RunEvent::GraceOver);
    assert!(matches!(action, RunAction::StopAndWait));
    let (phase, action) = phase.step(RunEvent::Ended {
        result: Ok(status(SessionState::Dead, TerminationReason::Cancelled)),
        terminal: None,
    });
    assert!(matches!(action, RunAction::Collect(_)));
    assert!(matches!(phase, RunPhase::Over));
}

#[test]
fn lost_signals_fail_the_run_once_it_is_over() {
    let (phase, action) = RunPhase::Waiting.step(RunEvent::SignalLost("no handler".to_owned()));
    assert!(matches!(action, RunAction::StopAndWait));
    let (_, action) = phase.step(RunEvent::Ended {
        result: Ok(status(SessionState::Dead, TerminationReason::Cancelled)),
        terminal: None,
    });
    assert!(matches!(action, RunAction::Fail(_)));
}

#[test]
fn supervisors_speak_for_their_backend() {
    let supervisor = Supervisor::new(ProcessBackend);
    assert_eq!(supervisor.backend_name(), "process");
    assert!(!supervisor.backend_capabilities().network.is_supported());
}
