use moraebox::budget::{RunBudget, RunStage, TimeoutPolicy};
use moraebox::lifecycle::{
    Lifecycle, LifecycleEvent, SessionState, TerminationReason,
};
use moraebox::session::finish::{
    flatten_session_io_task, ExitParts, IoErrorKind, SessionIoFailure, SessionIoFailureKind,
    SessionEnd, SessionIoStream, SessionStatus, TaskEnd,
};
use moraebox::session::handle::{
    already_stopping, begin_command_stage, begin_start, check_output_read, check_stdin_write,
    completion, merge_trace, terminal_error, Completion, SessionError,
};
use moraebox::session::stdin::{StdinAction, StdinEvent, StdinPhase, StdinPump};
use moraebox::session::teardown::Teardown;
use moraebox::session::{
    bounded_session_control, ControlOutcome, Effect, SessionDriver, SessionEvent,
    MAX_SESSION_OUTPUT_READ_BYTES, STDIN_QUEUE_BYTES,
};
use moraebox::time::Duration;
use moraebox::trace::TraceKind;

fn running() -> Lifecycle {
    let mut lifecycle = Lifecycle::new();
    for event in [
        LifecycleEvent::Prepare,
        LifecycleEvent::Start,
        LifecycleEvent::AgentReady,
        LifecycleEvent::CommandStarted,
    ] {
        lifecycle.apply(event).unwrap();
    }
    lifecycle
}

fn driver(has_deadline: bool) -> SessionDriver {
    SessionDriver::new(running(), has_deadline, Duration::from_millis(50))
}

/// The end of a session with a given end of its standard output.
fn end_of(driver: SessionDriver, stdout: TaskEnd) -> SessionEnd {
    let mut teardown = Teardown::begin(driver, true);
    if teardown.waits_for(SessionIoStream::Stdin) {
        assert!(!teardown.waits_for(SessionIoStream::Stdout));
        teardown.end(SessionIoStream::Stdin, TaskEnd::Finished);
    }
    assert!(teardown.waits_for(SessionIoStream::Stderr));
    teardown.end(SessionIoStream::Stderr, TaskEnd::Finished);
    assert!(!teardown.is_over());
    assert!(teardown.waits_for(SessionIoStream::Stdout));
    teardown.end(SessionIoStream::Stdout, stdout);
    assert!(teardown.is_over());
    teardown.finish()
}

fn has(effects: &[Effect], wanted: Effect) -> bool {
    effects.iter().any(|effect| *effect == wanted)
}

fn status_of(lifecycle: Lifecycle) -> SessionStatus {
    SessionStatus::initial(
        "session".to_owned(),
        "process".to_owned(),
        Some("sha256:resolved".to_owned()),
        lifecycle,
    )
}

#[test]
fn stop_terminates_a_long_running_session() {
    let mut driver = driver(false);
    let effects = driver.step(SessionEvent::StopCommand);
    assert_eq!(effects.last(), Some(&Effect::SendTerm));
    let effects = driver.step(SessionEvent::TermOutcome(ControlOutcome::Done));
    assert!(has(&effects, Effect::ArmKill));
    assert!(has(&effects, Effect::ReplyOk));
    let effects = driver.step(SessionEvent::ExitKnown);
    assert!(has(&effects, Effect::Finish));
    let end = end_of(driver, TaskEnd::Finished);
    let dead = end.dead.unwrap();
    assert_eq!(dead.state, SessionState::Dead);
    assert_eq!(dead.termination_reason, Some(TerminationReason::Cancelled));
    assert!(!end.stage_failed);
    assert!(end.messages.is_empty());
}

#[test]
fn initial_stdin_cannot_block_the_wall_timeout() {
    let (pump, action) = StdinPump::start(true, STDIN_QUEUE_BYTES * 4);
    assert_eq!(pump.phase, StdinPhase::WritingInitial);
    assert_eq!(action, StdinAction::WriteInitial);
    let mut driver = driver(true);
    let effects = driver.step(SessionEvent::DeadlineElapsed);
    assert!(has(&effects, Effect::Record(TraceKind::Timeout)));
    assert!(has(&effects, Effect::CloseStdin));
    assert_eq!(effects.last(), Some(&Effect::SendTerm));
    driver.step(SessionEvent::TermOutcome(ControlOutcome::Done));
    driver.step(SessionEvent::ExitKnown);
    let end = end_of(driver, TaskEnd::Finished);
    assert!(end.timed_out);
    assert_eq!(
        end.dead.unwrap().termination_reason,
        Some(TerminationReason::TimedOut)
    );
}

#[test]
fn blocked_incremental_stdin_does_not_block_stop() {
    let (mut pump, _) = StdinPump::start(true, 0);
    assert_eq!(pump.step(StdinEvent::WriteRequest), StdinAction::WriteBytes);
    assert_eq!(
        pump.step(StdinEvent::Shutdown),
        StdinAction::ReplyClosedAndEnd
    );
    assert_eq!(pump.phase, StdinPhase::Ended);
}

#[test]
fn supports_incremental_stdin_and_cursor_output() {
    let (mut pump, action) = StdinPump::start(true, 0);
    assert_eq!(action, StdinAction::AwaitRequest);
    assert_eq!(pump.step(StdinEvent::WriteRequest), StdinAction::WriteBytes);
    assert_eq!(pump.step(StdinEvent::Completed), StdinAction::ReplyOk);
    assert_eq!(
        pump.step(StdinEvent::CloseRequest),
        StdinAction::ShutdownWriter
    );

    let start = begin_start(Duration::zero(), Duration::from_millis(1));
    let start = start.spawn_succeeded(Duration::from_millis(2));
    assert_eq!(start.lifecycle.state, SessionState::Running);
    let mut recorder = start.recorder;
    recorder.push(TraceKind::FirstOutput, Duration::from_millis(3));
    recorder.push(TraceKind::ProcessExited, Duration::from_millis(4));
    recorder.push(TraceKind::CleanupComplete, Duration::from_millis(5));
    let mut budget = RunBudget::new(TimeoutPolicy::Unlimited, Duration::zero());
    assert_eq!(begin_command_stage(&mut budget, Duration::from_millis(2)), None);
    budget.complete_stage(
        RunStage::CommandRun,
        Duration::from_millis(2),
        Duration::from_millis(4),
    );
    let whole = merge_trace(&recorder.events, &budget.events());
    let mut expected: u64 = 0;
    for event in &whole {
        assert_eq!(event.sequence, expected);
        expected += 1;
    }
    let trace: Vec<TraceKind> = whole
        .iter()
        .filter(|event| event.stage.is_none())
        .map(|event| event.kind)
        .collect();
    assert_eq!(
        &trace[..4],
        &[
            TraceKind::PrepareStarted,
            TraceKind::BackendSpawnStarted,
            TraceKind::BackendSpawned,
            TraceKind::CommandStarted,
        ]
    );
    assert!(trace.contains(&TraceKind::FirstOutput));
    assert_eq!(trace[trace.len() - 2], TraceKind::ProcessExited);
    assert_eq!(trace.last(), Some(&TraceKind::CleanupComplete));
}

#[test]
fn resolved_image_digest_survives_status_updates() {
    let status = status_of(running()).publish_status(
        running(),
        false,
        ExitParts {
            code: Some(3),
            signal: None,
        },
        Duration::from_millis(1),
        Duration::from_millis(4),
    );
    assert_eq!(
        status.resolved_image_digest.as_deref(),
        Some("sha256:resolved")
    );
    assert_eq!(status.exit_code, Some(3));
    assert_eq!(status.elapsed_micros, 3000);
}

#[test]
fn rejects_a_single_write_larger_than_the_byte_budget() {
    let error = check_stdin_write(STDIN_QUEUE_BYTES + 1).unwrap_err();
    assert!(matches!(
        error,
        SessionError::StdinWriteTooLarge {
            requested,
            maximum: STDIN_QUEUE_BYTES,
        } if requested == STDIN_QUEUE_BYTES + 1
    ));
    assert_eq!(check_stdin_write(STDIN_QUEUE_BYTES).unwrap(), 1024 * 1024);
}

#[test]
fn rejects_a_single_output_read_larger_than_the_api_limit() {
    let error = check_output_read(MAX_SESSION_OUTPUT_READ_BYTES + 1).unwrap_err();
    assert!(matches!(
        error,
        SessionError::OutputReadTooLarge {
            requested,
            maximum: MAX_SESSION_OUTPUT_READ_BYTES,
        } if requested == MAX_SESSION_OUTPUT_READ_BYTES + 1
    ));
    assert!(check_output_read(MAX_SESSION_OUTPUT_READ_BYTES).is_ok());
}

#[test]
fn control_errors_still_force_and_reach_dead_after_cleanup() {
    let mut driver = driver(false);
    let mut term: usize = 0;
    let mut force: usize = 0;
    let mut replied_error = false;
    for event in [
        SessionEvent::StopCommand,
        SessionEvent::TermOutcome(ControlOutcome::Failed("TERM failed".to_owned())),
        SessionEvent::ForceOutcome(ControlOutcome::Failed("FORCE failed".to_owned())),
        SessionEvent::ExitKnown,
    ] {
        for effect in driver.step(event) {
            match effect {
                Effect::SendTerm => term += 1,
                Effect::ForceStop => force += 1,
                Effect::ReplyTermError => replied_error = true,
                _ => {}
            }
        }
    }
    let end = end_of(driver, TaskEnd::Finished);
    assert!(replied_error);
    assert!(end.messages.iter().any(|text| text.contains("TERM failed")));
    assert_eq!((term, force), (1, 1));
    let dead = end.dead.unwrap();
    assert_eq!(dead.state, SessionState::Dead);
    assert_eq!(dead.termination_reason, Some(TerminationReason::Failed));
}

#[test]
fn hard_cleanup_deadline_never_publishes_dead_without_exit() {
    let mut driver = driver(true);
    let mut force: usize = 0;
    for event in [
        SessionEvent::DeadlineElapsed,
        SessionEvent::TermOutcome(ControlOutcome::Done),
        SessionEvent::KillElapsed,
        SessionEvent::ForceOutcome(ControlOutcome::Done),
        SessionEvent::CleanupElapsed,
    ] {
        for effect in driver.step(event) {
            if effect == Effect::ForceStop {
                force += 1;
            }
            if let Effect::Publish { state, .. } = effect {
                assert_ne!(state, SessionState::Dead);
            }
        }
    }
    assert_eq!(force, 1);
    let end = end_of(driver, TaskEnd::Finished);
    assert_eq!(end.settled.state, SessionState::Failed);
    assert!(end.publish_failure);
    assert!(end.dead.is_none());
    assert!(matches!(
        completion(status_of(end.settled), None, true),
        Completion::Closed
    ));
    assert!(matches!(
        completion(status_of(end.settled), None, false),
        Completion::Pending(_)
    ));
}

#[test]
fn output_pump_error_marks_the_completed_session_failed() {
    let mut driver = driver(false);
    driver.step(SessionEvent::ExitKnown);
    let end = end_of(
        driver,
        TaskEnd::Failed(IoErrorKind::Other, "injected read failure".to_owned()),
    );
    let dead = end.dead.unwrap();
    assert_eq!(dead.state, SessionState::Dead);
    assert_eq!(dead.termination_reason, Some(TerminationReason::Failed));
    let first = end.io_failures.into_iter().next();
    match completion(status_of(dead), first, false) {
        Completion::Failed(SessionIoFailure {
            stream: SessionIoStream::Stdout,
            kind: SessionIoFailureKind::Operation,
            io_kind: Some(IoErrorKind::Other),
            message,
        }) => assert_eq!(message, "injected read failure"),
        _ => panic!("the failure is lost"),
    }
    assert!(terminal_error(&end.messages)
        .is_some_and(|error| error.contains("injected read failure")));
}

#[test]
fn dead_is_published_only_after_output_pump_is_reclaimed() {
    let mut driver = driver(false);
    let effects = driver.step(SessionEvent::ExitKnown);
    for effect in effects {
        if let Effect::Publish { state, .. } = effect {
            assert_ne!(state, SessionState::Dead);
        }
    }
    let mut teardown = Teardown::begin(driver, false);
    teardown.end(SessionIoStream::Stdin, TaskEnd::Finished);
    assert!(!teardown.is_over());
    assert!(!teardown.waits_for(SessionIoStream::Stderr));
    teardown.end(SessionIoStream::Stdout, TaskEnd::Finished);
    assert!(teardown.is_over());
    let end = teardown.finish();
    assert!(!end.publish_failure);
    assert_eq!(end.dead.unwrap().state, SessionState::Dead);
}

#[test]
fn output_cleanup_timeout_is_a_typed_io_failure() {
    let failure = flatten_session_io_task(
        SessionIoStream::Stdout,
        TaskEnd::CutOff,
        Duration::from_millis(10),
    )
    .unwrap();
    assert_eq!(failure.stream, SessionIoStream::Stdout);
    assert_eq!(failure.kind, SessionIoFailureKind::CleanupTimeout);
    assert_eq!(failure.io_kind, None);
    let mut driver = driver(false);
    driver.step(SessionEvent::ExitKnown);
    let end = end_of(driver, TaskEnd::CutOff);
    assert_eq!(end.dead.unwrap().state, SessionState::Dead);
    assert_eq!(
        end.messages,
        ["stdout pump cleanup timed out: did not stop within the 50ms cleanup deadline"]
    );
}

#[test]
fn output_task_panic_is_a_typed_io_failure() {
    let failure = flatten_session_io_task(
        SessionIoStream::Stdout,
        TaskEnd::Lost("panicked".to_owned()),
        Duration::from_millis(10),
    )
    .unwrap();
    assert_eq!(failure.kind, SessionIoFailureKind::Task);
    assert_eq!(failure.io_kind, None);
    assert!(flatten_session_io_task(
        SessionIoStream::Stderr,
        TaskEnd::Finished,
        Duration::from_millis(10)
    )
    .is_none());
}

#[test]
fn repeated_stop_preserves_the_first_kill_deadline() {
    let mut driver = driver(false);
    driver.step(SessionEvent::StopCommand);
    let first = driver.step(SessionEvent::TermOutcome(ControlOutcome::Done));
    assert!(has(&first, Effect::ArmKill));
    let again = driver.step(SessionEvent::StopCommand);
    assert!(!has(&again, Effect::ArmKill));
    assert!(!has(&again, Effect::SendTerm));
    assert!(has(&again, Effect::ReplyOk));
    let forced = driver.step(SessionEvent::KillElapsed);
    assert_eq!(forced.last(), Some(&Effect::ForceStop));
    driver.step(SessionEvent::ForceOutcome(ControlOutcome::Done));
    driver.step(SessionEvent::ExitKnown);
    assert_eq!(
        end_of(driver, TaskEnd::Finished).dead.unwrap().state,
        SessionState::Dead
    );
    assert!(already_stopping(SessionState::Dead));
    assert!(!already_stopping(SessionState::Running));
}

#[test]
fn queued_stop_race_sends_term_only_once() {
    let mut driver = driver(false);
    let mut term: usize = 0;
    let mut replies: usize = 0;
    for event in [
        SessionEvent::StopCommand,
        SessionEvent::TermOutcome(ControlOutcome::Done),
        SessionEvent::StopCommand,
        SessionEvent::ExitKnown,
    ] {
        for effect in driver.step(event) {
            if effect == Effect::SendTerm {
                term += 1;
            }
            if effect == Effect::ReplyOk {
                replies += 1;
            }
        }
    }
    assert_eq!(term, 1);
    assert_eq!(replies, 2);
}

#[test]
fn dropping_last_handle_terminates_and_reaps_the_process() {
    let mut driver = driver(false);
    let effects = driver.step(SessionEvent::CommandsClosed);
    assert_eq!(effects.last(), Some(&Effect::SendTerm));
    let effects = driver.step(SessionEvent::TermOutcome(ControlOutcome::TimedOut));
    assert_eq!(effects.last(), Some(&Effect::ForceStop));
    driver.step(SessionEvent::ForceOutcome(ControlOutcome::Done));
    driver.step(SessionEvent::ExitKnown);
    let end = end_of(driver, TaskEnd::Finished);
    assert_eq!(
        end.messages,
        ["backend TERM did not complete within 50ms"]
    );
}

#[test]
fn broken_input_ends_the_session() {
    let mut driver = driver(true);
    let effects = driver.step(SessionEvent::StdinFailed("broken pipe".to_owned()));
    assert_eq!(effects.last(), Some(&Effect::SendTerm));
    driver.step(SessionEvent::TermOutcome(ControlOutcome::Done));
    driver.step(SessionEvent::ExitFailed("lost child".to_owned()));
    let end = end_of(driver, TaskEnd::Finished);
    assert!(end.dead.is_none());
    assert!(end.messages.len() >= 2);
    assert_eq!(end.settled.state, SessionState::Failed);
}

#[test]
fn commands_are_delivered_while_running() {
    let mut driver = driver(false);
    assert!(has(
        &driver.step(SessionEvent::ControlCommand),
        Effect::Deliver
    ));
    assert!(driver.step(SessionEvent::StdinDone).is_empty());
}

#[test]
fn control_failures_are_put_into_words() {
    let limit = Duration::from_millis(50);
    assert_eq!(
        bounded_session_control("terminate", &ControlOutcome::Done, limit),
        None
    );
    assert_eq!(
        bounded_session_control(
            "terminate",
            &ControlOutcome::Failed("gone".to_owned()),
            limit
        ),
        Some("backend terminate failed: gone".to_owned())
    );
    assert_eq!(
        terminal_error(&vec!["a".to_owned(), "b".to_owned()]),
        Some("a; b".to_owned())
    );
    assert_eq!(terminal_error(&vec![]), None);
}

#[test]
fn lifecycles_refuse_events_out_of_order() {
    let mut lifecycle = Lifecycle::new();
    let error = lifecycle.apply(LifecycleEvent::CommandExited).unwrap_err();
    assert_eq!(error.state, SessionState::Created);
    assert_eq!(lifecycle.state, SessionState::Created);
    assert_eq!(SessionState::TimedOut.label(), "timed_out");
}

#[test]
fn failed_starts_are_failed_sessions() {
    let start = begin_start(Duration::zero(), Duration::zero());
    let dead = start.spawn_failed();
    assert_eq!(dead.state, SessionState::Dead);
    assert_eq!(dead.termination_reason, Some(TerminationReason::Failed));
}

#[test]
fn spent_budgets_leave_the_command_no_time() {
    let mut budget = RunBudget::new(TimeoutPolicy::Limited(5), Duration::zero());
    assert_eq!(
        begin_command_stage(&mut budget, Duration::from_millis(9)),
        Some(Duration::zero())
    );
}

#[test]
fn input_that_ended_before_is_not_waited_for() {
    let mut driver = driver(false);
    driver.step(SessionEvent::StdinDone);
    driver.step(SessionEvent::ExitKnown);
    let teardown = Teardown::begin(driver, false);
    assert!(!teardown.waits_for(SessionIoStream::Stdin));
    assert!(teardown.waits_for(SessionIoStream::Stdout));
    assert!(!teardown.is_over());
}

#[test]
fn kinds_of_failures_are_kept() {
    for kind in [
        IoErrorKind::ConnectionReset,
        IoErrorKind::StorageFull,
        IoErrorKind::Unsupported,
        IoErrorKind::Uncategorized,
    ] {
        let mut driver = driver(false);
        driver.step(SessionEvent::ExitKnown);
        let end = end_of(driver, TaskEnd::Failed(kind, "broken".to_owned()));
        assert_eq!(end.io_failures[0].io_kind, Some(kind));
    }
}
