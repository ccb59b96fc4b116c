//! What a session and a run come to: the states that a session goes through, the status that its
//! callers see, its trace, and the report or the error of a run.

use vstd::prelude::*;

use crate::backend::{BackendErrorView, Signal};
use crate::budget::{StageEvent, StageEventKind};
use crate::lifecycle::{Lifecycle, LifecycleEvent, SessionState, TerminationReason};
use crate::session::finish::{
    failure_of, settled_lifecycle, ExitParts, IoFailureView, SessionIoFailureKind,
    SessionIoStream, SessionStatus, StatusView, TaskEnd,
};
use crate::session::handle::{
    completion_of, in_order, joined, numbered, place_of, stage_trace, stop_is_settled, waited_of,
    whole_trace, SessionError, SessionErrorView,
};
use crate::session::teardown::{Pump, TeardownView};
use crate::session::{DriverView, Phase};
use crate::supervisor::{
    run_step, start_error, wait_error, RunActionView, RunEvent, RunPhaseView, SupervisorErrorView,
};
use crate::trace::{TraceEvent, TraceKind};

verus! {

/// A session that nothing goes wrong with is prepared, started, ready, running and stopping, and
/// then dead for the reason that its command exited.
pub proof fn law_sessions_go_through_their_states(termination_reason: Option<TerminationReason>)
    ensures
        ({
            let created = Lifecycle { state: SessionState::Created, termination_reason };
            let preparing = created.after(LifecycleEvent::Prepare);
            let starting = preparing->0.after(LifecycleEvent::Start);
            let ready = starting->0.after(LifecycleEvent::AgentReady);
            let running = ready->0.after(LifecycleEvent::CommandStarted);
            let stopping = running->0.after(LifecycleEvent::CommandExited);
            let dead = stopping->0.after(LifecycleEvent::CleanupComplete);
            &&& preparing is Some && preparing->0.state == SessionState::Preparing
            &&& starting is Some && starting->0.state == SessionState::Starting
            &&& ready is Some && ready->0.state == SessionState::Ready
            &&& running is Some && running->0.state == SessionState::Running
            &&& stopping is Some && stopping->0.state == SessionState::Stopping
            &&& dead is Some && dead->0.state == SessionState::Dead
            &&& running->0.termination_reason == termination_reason
            &&& dead->0.termination_reason == Some(TerminationReason::Exited)
        }),
{
}

/// A running session ends for what ended it, and its cleanup keeps the reason; a failure takes the
/// place of any other reason, unless the session is dead.
pub proof fn law_sessions_end_for_a_reason(lifecycle: Lifecycle)
    ensures
        lifecycle.state == SessionState::Running ==> {
            &&& lifecycle.after(LifecycleEvent::StopRequested) matches Some(next)
            &&& next.termination_reason == Some(TerminationReason::Cancelled)
            &&& next.state == SessionState::Stopping
        },
        lifecycle.state == SessionState::Running ==> {
            &&& lifecycle.after(LifecycleEvent::Timeout) matches Some(next)
            &&& next.termination_reason == Some(TerminationReason::TimedOut)
            &&& next.state == SessionState::TimedOut
        },
        lifecycle.after(LifecycleEvent::CleanupComplete) matches Some(dead) ==> {
            &&& dead.state == SessionState::Dead
            &&& dead.termination_reason == lifecycle.termination_reason
        },
        lifecycle.after(LifecycleEvent::CleanupComplete) is Some <==> lifecycle.state
            == SessionState::Stopping || lifecycle.state == SessionState::TimedOut
            || lifecycle.state == SessionState::Failed,
        lifecycle.after(LifecycleEvent::Fail) is Some <==> lifecycle.state != SessionState::Dead
            && lifecycle.state != SessionState::Failed,
        lifecycle.after(LifecycleEvent::Fail) matches Some(failed) ==> {
            &&& failed.state == SessionState::Failed
            &&& failed.termination_reason == Some(TerminationReason::Failed)
        },
{
}

/// An event is taken only in the state that it belongs to.
pub proof fn law_events_belong_to_a_state(lifecycle: Lifecycle)
    ensures
        lifecycle.after(LifecycleEvent::Prepare) is Some <==> lifecycle.state
            == SessionState::Created,
        lifecycle.after(LifecycleEvent::Start) is Some <==> lifecycle.state
            == SessionState::Preparing,
        lifecycle.after(LifecycleEvent::AgentReady) is Some <==> lifecycle.state
            == SessionState::Starting,
        lifecycle.after(LifecycleEvent::CommandStarted) is Some <==> lifecycle.state
            == SessionState::Ready,
        lifecycle.after(LifecycleEvent::CommandExited) is Some <==> lifecycle.state
            == SessionState::Running,
        lifecycle.after(LifecycleEvent::StopRequested) is Some <==> lifecycle.state
            == SessionState::Running,
        lifecycle.after(LifecycleEvent::Timeout) is Some <==> lifecycle.state
            == SessionState::Running,
{
}

/// A session without any failure ends as it was going to; one with a failure, of its own or of a
/// pump, ends as failed.
pub proof fn law_failures_settle_the_end(state: DriverView, failures: Seq<IoFailureView>)
    requires
        state.wf(),
        state.phase == Phase::Exited || state.phase == Phase::Abandoned,
    ensures
        state.errors.len() == 0 && failures.len() == 0 ==> settled_lifecycle(state, failures)
            == state.lifecycle,
        state.errors.len() > 0 || failures.len() > 0 ==> settled_lifecycle(state, failures).state
            == SessionState::Failed,
{
}

/// A pump that finished has no failure; every other end is one, of its stream and of its kind, with
/// what was told of it.
pub proof fn law_pumps_fail_in_their_way(stream: SessionIoStream, end: TaskEnd, deadline: int)
    ensures
        failure_of(stream, end, deadline) is None <==> end is Finished,
        failure_of(stream, end, deadline) matches Some(failure) ==> failure.stream == stream,
        end matches TaskEnd::Failed(kind, message) ==> {
            &&& failure_of(stream, end, deadline) matches Some(failure)
            &&& failure.kind == SessionIoFailureKind::Operation
            &&& failure.io_kind == Some(kind)
            &&& failure.message == message@
        },
        end matches TaskEnd::Lost(message) ==> {
            &&& failure_of(stream, end, deadline) matches Some(failure)
            &&& failure.kind == SessionIoFailureKind::Task
            &&& failure.io_kind is None
            &&& failure.message == message@
        },
        end is CutOff ==> {
            &&& failure_of(stream, end, deadline) matches Some(failure)
            &&& failure.kind == SessionIoFailureKind::CleanupTimeout
            &&& failure.io_kind is None
        },
{
}

/// A status tells what has become of the session: its state and reason, how its command ended,
/// whether its time ran out, and how long it took; whose session it is stays as it was.
pub proof fn law_status_tells_what_became_of_the_session(
    status: StatusView,
    lifecycle: Lifecycle,
    timed_out: bool,
    exit: ExitParts,
    started: int,
    now: int,
)
    requires
        0 <= started <= now < started + 1_000_000_000_000_000_000,
    ensures
        ({
            let next = status.updated(lifecycle, timed_out, exit, started, now);
            &&& next.session_id == status.session_id
            &&& next.backend == status.backend
            &&& next.resolved_image_digest == status.resolved_image_digest
            &&& next.state == lifecycle.state
            &&& next.termination_reason == lifecycle.termination_reason
            &&& next.exit_code == exit.code
            &&& next.signal == exit.signal
            &&& next.timed_out == timed_out
            &&& next.elapsed_micros * 1000 <= now - started < next.elapsed_micros * 1000 + 1000
        }),
{
}

/// A wait ends with the death of the session, with its status where no pump failed and with the
/// first failure where one did; it ends without one only where nothing more will be told.
pub proof fn law_waits_end_with_the_session(
    status: StatusView,
    failure: IoFailureView,
    closed: bool,
)
    ensures
        status.state == SessionState::Dead ==> {
            &&& waited_of(status, None, closed) == Some(
                Ok::<StatusView, SessionErrorView>(status),
            )
            &&& waited_of(status, Some(failure), closed) == Some(
                Err::<StatusView, SessionErrorView>(SessionErrorView::Io(failure)),
            )
        },
        status.state != SessionState::Dead ==> {
            &&& waited_of(status, Some(failure), false) is None
            &&& waited_of(status, None, false) is None
            &&& waited_of(status, None, true) == Some(
                Err::<StatusView, SessionErrorView>(SessionErrorView::SessionClosed),
            )
        },
        completion_of(status.state, None, closed) is Finished <==> status.state
            == SessionState::Dead,
{
}

/// A stop has something left to do exactly until the session is on its way out.
pub proof fn law_stops_are_needed_until_the_end(lifecycle: Lifecycle)
    ensures
        !stop_is_settled(SessionState::Created),
        !stop_is_settled(SessionState::Preparing),
        !stop_is_settled(SessionState::Starting),
        !stop_is_settled(SessionState::Ready),
        lifecycle.state == SessionState::Running ==> {
            &&& !stop_is_settled(lifecycle.state)
            &&& stop_is_settled(lifecycle.after(LifecycleEvent::StopRequested)->0.state)
            &&& stop_is_settled(lifecycle.after(LifecycleEvent::Timeout)->0.state)
            &&& stop_is_settled(lifecycle.after(LifecycleEvent::CommandExited)->0.state)
        },
        lifecycle.after(LifecycleEvent::Fail) matches Some(failed) ==> stop_is_settled(failed.state),
{
}

/// The messages of a session are told one behind the other, in their order.
pub proof fn law_messages_are_told_in_order(messages: Seq<Seq<char>>, message: Seq<char>)
    ensures
        joined(Seq::empty()) is None,
        joined(seq![message]) == Some(message),
        messages.len() > 0 ==> joined(messages) is Some && joined(messages.push(message)) == Some(
            joined(messages)->0 + "; "@ + message,
        ),
    decreases messages.len(),
{
    reveal_with_fuel(joined, 2);
    assert(seq![message].drop_last() =~= Seq::<Seq<char>>::empty());
    assert(messages.push(message).drop_last() =~= messages);
    if messages.len() > 0 {
        if messages.len() > 1 {
            law_messages_are_told_in_order(messages.drop_last(), message);
        }
    }
}

/// A trace holds every event of the session and of its stages, each once, numbered in the order in
/// which they happened.
pub proof fn law_traces_hold_every_event(events: Seq<TraceEvent>, stages: Seq<StageEvent>)
    ensures
        in_order(events).to_multiset() == events.to_multiset(),
        whole_trace(events, stages).len() == events.len() + stages.len(),
        forall|i: int|
            0 <= i < whole_trace(events, stages).len() && i <= u64::MAX ==> (#[trigger] whole_trace(
                events,
                stages,
            )[i]).sequence == i,
    decreases events.len(),
{
    let all = events + stages.map_values(|stage: StageEvent| stage_trace(stage));
    crate::session::handle::law_trace_is_in_order(all);
    if events.len() > 0 {
        let earlier = in_order(events.drop_last());
        let event = events.last();
        law_traces_hold_every_event(events.drop_last(), stages);
        crate::session::handle::lemma_place_bounds(earlier, event.elapsed_micros);
        crate::text::lemma_insert_multiset(
            earlier,
            place_of(earlier, event.elapsed_micros),
            event,
        );
        events.drop_last().to_multiset_ensures();
        assert(events.drop_last().push(event) =~= events);
    } else {
        assert(in_order(events) == events);
    }
}

/// An event that is listed later stands behind all that happened no later than it, and before all
/// that happened later.
pub proof fn law_events_are_put_at_their_time(events: Seq<TraceEvent>, event: TraceEvent)
    ensures
        ({
            let earlier = in_order(events);
            let place = place_of(earlier, event.elapsed_micros);
            &&& 0 <= place <= earlier.len()
            &&& in_order(events.push(event)) == earlier.insert(place, event)
            &&& forall|i: int|
                0 <= i < place ==> (#[trigger] earlier[i]).elapsed_micros <= event.elapsed_micros
            &&& forall|i: int|
                place <= i < earlier.len() ==> (#[trigger] earlier[i]).elapsed_micros
                    > event.elapsed_micros
        }),
{
    let earlier = in_order(events);
    crate::session::handle::law_trace_is_in_order(events);
    crate::session::handle::lemma_place_bounds(earlier, event.elapsed_micros);
    crate::session::handle::lemma_insert_keeps_order(earlier, event);
    assert(events.push(event).drop_last() =~= events);
}

/// The events of a stage are told as such, at their time and with their stage; numbering changes
/// nothing but the number.
pub proof fn law_stages_are_told_in_the_trace(event: StageEvent, events: Seq<TraceEvent>, i: int)
    requires
        0 <= i < events.len(),
    ensures
        stage_trace(event).elapsed_micros == event.elapsed_micros,
        stage_trace(event).stage == Some(event.stage),
        event.kind == StageEventKind::Started <==> stage_trace(event).kind
            == TraceKind::StageStarted,
        event.kind == StageEventKind::Completed <==> stage_trace(event).kind
            == TraceKind::StageCompleted,
        event.kind == StageEventKind::Failed <==> stage_trace(event).kind == TraceKind::StageFailed,
        numbered(events)[i].elapsed_micros == events[i].elapsed_micros,
        numbered(events)[i].kind == events[i].kind,
        numbered(events)[i].stage == events[i].stage,
{
}

/// A run that is left alone is reported as its session ended, and fails only where the wait for the
/// session did.
pub proof fn law_runs_report_their_session(
    status: SessionStatus,
    error: SessionError,
    terminal: Option<String>,
)
    ensures
        run_step(RunPhaseView::Waiting, RunEvent::Ended { result: Ok(status), terminal }).1
            == RunActionView::Collect(status@),
        run_step(RunPhaseView::Grace, RunEvent::Ended { result: Ok(status), terminal }).1
            == RunActionView::Collect(status@),
        run_step(RunPhaseView::Waiting, RunEvent::Ended { result: Err(error), terminal }).1
            is Fail,
{
}

/// A signal is handed to the session, which then has the grace period to end by itself; after it
/// the session is stopped, and the run is reported as the session ended.
pub proof fn law_interrupted_runs_end(signal: Signal, status: SessionStatus, details: String)
    ensures
        ({
            let (signalling, first) = run_step(
                RunPhaseView::Waiting,
                RunEvent::SignalArrived(signal),
            );
            let (grace, second) = run_step(signalling, RunEvent::SignalSent);
            let (stopping, third) = run_step(grace, RunEvent::GraceOver);
            &&& first == RunActionView::SendSignal(signal)
            &&& second == RunActionView::AwaitEndWithinGrace
            &&& third == RunActionView::StopAndWait
            &&& run_step(stopping, RunEvent::Ended { result: Ok(status), terminal: None }).1
                == RunActionView::Collect(status@)
            &&& run_step(
                stopping,
                RunEvent::Ended { result: Ok(status), terminal: Some(details) },
            ).1 == RunActionView::Fail(SupervisorErrorView::Cleanup(details@))
        }),
{
}

/// A signal that a living session does not take, or that cannot be waited for, stops the session,
/// and the run fails with that error; one that comes too late is no error.
pub proof fn law_signals_that_fail_end_the_run(
    error: SessionError,
    state: SessionState,
    text: String,
    status: SessionStatus,
)
    ensures
        ({
            let (phase, action) = run_step(
                RunPhaseView::Signalling,
                RunEvent::SignalRefused { error, state },
            );
            &&& state == SessionState::Dead ==> action == RunActionView::AwaitEndWithinGrace
            &&& state != SessionState::Dead ==> action == RunActionView::StopAndWait && run_step(
                phase,
                RunEvent::Ended { result: Ok(status), terminal: None },
            ).1 == RunActionView::Fail(SupervisorErrorView::Session(error@))
        }),
        ({
            let (phase, action) = run_step(RunPhaseView::Waiting, RunEvent::SignalLost(text));
            &&& action == RunActionView::StopAndWait
            &&& run_step(phase, RunEvent::Ended { result: Ok(status), terminal: None }).1
                == RunActionView::Fail(SupervisorErrorView::Io(text@))
        }),
{
}

/// The errors of a session are handed on as what they are: a pump's failure as such, what went
/// wrong with the backend as such, and what a session says of its own cleanup before any other.
pub proof fn law_errors_are_handed_on(
    failure: IoFailureView,
    inner: BackendErrorView,
    details: Seq<char>,
    terminal: Option<Seq<char>>,
    error: SessionErrorView,
)
    ensures
        wait_error(SessionErrorView::Io(failure), terminal) == SupervisorErrorView::SessionIo(
            failure,
        ),
        !(error is Io) ==> wait_error(error, Some(details)) == SupervisorErrorView::Cleanup(
            details,
        ),
        !(error is Io) ==> wait_error(error, None) == SupervisorErrorView::Session(error),
        start_error(SessionErrorView::Backend(inner)) == SupervisorErrorView::Backend(inner),
        !(error is Backend) && !(error is Lifecycle) ==> start_error(error)
            == SupervisorErrorView::Session(error),
{
}

/// The end of the input is waited for first, then those of the outputs; the end of a pump is its own,
/// and once none runs the session is over.
pub proof fn law_pumps_are_waited_for(
    teardown: TeardownView,
    stream: SessionIoStream,
    other: SessionIoStream,
    end: TaskEnd,
)
    requires
        stream != other,
    ensures
        teardown.waits_for(SessionIoStream::Stdin) <==> teardown.stdin is Running,
        teardown.waits_for(SessionIoStream::Stdout) <==> teardown.stdout is Running
            && !(teardown.stdin is Running),
        teardown.waits_for(SessionIoStream::Stderr) <==> teardown.stderr is Running
            && !(teardown.stdin is Running),
        teardown.is_over() <==> !(teardown.stdin is Running) && !(teardown.stdout is Running)
            && !(teardown.stderr is Running),
        teardown.ended(stream, end).pump(stream) == Pump::Ended(end),
        teardown.ended(stream, end).pump(other) == teardown.pump(other),
        teardown.ended(stream, end).driver == teardown.driver,
        !teardown.ended(stream, end).waits_for(stream),
        !teardown.is_over() ==> teardown.waits_for(SessionIoStream::Stdin) || teardown.waits_for(
            SessionIoStream::Stdout,
        ) || teardown.waits_for(SessionIoStream::Stderr),
{
}

/// Each pump that failed is told of, each once, and none that did not.
pub proof fn law_pump_failures_are_told(teardown: TeardownView, stream: SessionIoStream, end: TaskEnd)
    requires
        teardown.pump(stream) == Pump::Ended(end),
        failure_of(stream, end, teardown.driver.kill_grace) is Some,
    ensures
        teardown.failures().contains(failure_of(stream, end, teardown.driver.kill_grace)->0),
        teardown.failures().len() <= 3,
{
    let grace = teardown.driver.kill_grace;
    let first = crate::session::teardown::failures_of(
        SessionIoStream::Stdin,
        teardown.stdin,
        grace,
    );
    let second = crate::session::teardown::failures_of(
        SessionIoStream::Stdout,
        teardown.stdout,
        grace,
    );
    let third = crate::session::teardown::failures_of(
        SessionIoStream::Stderr,
        teardown.stderr,
        grace,
    );
    let all = teardown.failures();
    match stream {
        SessionIoStream::Stdin => {
            assert(all[0] == first[0]);
        },
        SessionIoStream::Stdout => {
            assert(all[first.len() as int] == second[0]);
        },
        SessionIoStream::Stderr => {
            assert(all[(first.len() + second.len()) as int] == third[0]);
        },
    }
}

/// Whether a pump is one that did not fail: there was none, it still runs, or it finished.
pub open spec fn is_sound(pump: Pump) -> bool {
    match pump {
        Pump::Ended(end) => end is Finished,
        _ => true,
    }
}

/// Nothing is told of pumps that did not fail.
pub proof fn law_sound_pumps_have_no_failures(teardown: TeardownView)
    ensures
        teardown.failures().len() == 0 <==> is_sound(teardown.stdin) && is_sound(teardown.stdout)
            && is_sound(teardown.stderr),
{
}

/// A session whose exit was seen and whose pumps are done is published as dead for the reason that
/// it ended for, and after a failure as failed before that; while a pump runs nothing is.
pub proof fn law_ended_sessions_are_published_as_dead(teardown: TeardownView)
    requires
        teardown.wf(),
        teardown.driver.phase == Phase::Exited,
    ensures
        !teardown.is_over() ==> teardown.publications().len() == 0,
        teardown.is_over() ==> {
            let published = teardown.publications();
            let failed = teardown.driver.errors.len() + teardown.failures().len() > 0;
            &&& published.len() == (if failed {
                2int
            } else {
                1
            })
            &&& published.last().state == SessionState::Dead
            &&& published.last().termination_reason == (if failed {
                Some(TerminationReason::Failed)
            } else {
                teardown.driver.lifecycle.termination_reason
            })
            &&& failed ==> published[0].state == SessionState::Failed
        },
{
    crate::session::finish::law_dead_needs_known_exit(teardown.driver, teardown.failures());
}

} // verus!
