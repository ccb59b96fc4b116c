//! What is done about a session, event by event.

use vstd::prelude::*;

use crate::lifecycle::{Lifecycle, LifecycleEvent, SessionState, TerminationReason};
use crate::session::stdin::{StdinAction, StdinEvent, StdinPhase, StdinPump};
use crate::session::{
    Cause, ControlOutcomeView, DriverView, Effect, EventView, ForceCause, Phase,
};
use crate::trace::TraceKind;

verus! {

/// A timer that is set has been asked for: whenever a step leaves one set that was not, it asks for
/// it; and it asks for none that it does not leave set.
pub proof fn law_timers_are_asked_for(state: DriverView, event: EventView)
    requires
        state.wf(),
        state.expects(event),
    ensures
        ({
            let step = crate::session::driver_step(state, event);
            &&& step.state.kill_armed && !state.kill_armed ==> step.effects.contains(
                Effect::ArmKill,
            )
            &&& state.phase == Phase::AwaitForce(ForceCause::KillElapsed)
                ==> !step.state.kill_armed
            &&& step.effects.contains(Effect::ArmKill) ==> step.state.kill_armed
            &&& step.state.cleanup_armed && !state.cleanup_armed ==> step.effects.contains(
                Effect::ArmCleanup,
            )
            &&& step.effects.contains(Effect::ArmCleanup) ==> step.state.cleanup_armed
            &&& state.deadline_armed && !step.state.deadline_armed ==> step.effects.contains(
                Effect::DisarmDeadline,
            )
            &&& step.effects.contains(Effect::DisarmDeadline) ==> !step.state.deadline_armed
            &&& !state.deadline_armed ==> !step.state.deadline_armed
        }),
{
    lemma_contained(state, event);
    let step = crate::session::driver_step(state, event);
    let length = step.effects.len() as int;
    match event {
        EventView::TermOutcome(ControlOutcomeView::Done) => {
            assert(step.effects[1] == Effect::ArmKill);
            assert(step.effects.contains(Effect::ArmKill));
            assert forall|i: int| 0 <= i < length implies #[trigger] step.effects[i]
                != Effect::ArmCleanup by {
                assert(i == 0 || i == 1 || i == 2 || i == 3);
            }
            if state.deadline_armed {
                assert(step.effects[2] == Effect::DisarmDeadline);
                assert(step.effects.contains(Effect::DisarmDeadline));
            }
        },
        EventView::ForceOutcome(outcome) => {
            if outcome is Done {
                assert(step.effects[1] == Effect::ArmCleanup);
            } else if state.phase->AwaitForce_0 is AfterTerm {
                assert(step.effects[0] == Effect::ArmCleanup);
            } else {
                assert(step.effects[1] == Effect::ArmCleanup);
            }
            if state.deadline_armed {
                assert(step.effects[length - 1] == Effect::DisarmDeadline || step.effects[length - 2]
                    == Effect::DisarmDeadline);
            }
        },
        EventView::KillElapsed => {
            if !state.controller_held {
                assert(step.effects[1] == Effect::ArmCleanup);
            }
        },
        EventView::StdinFailed(_) => {
            assert(step.effects[1] == Effect::DisarmDeadline);
        },
        _ => {},
    }
}

proof fn lemma_contained(state: DriverView, event: EventView)
    ensures
        ({
            let effects = crate::session::driver_step(state, event).effects;
            forall|effect: Effect|
                #![trigger effects.contains(effect)]
                effects.contains(effect) <==> exists|i: int|
                    0 <= i < effects.len() && #[trigger] effects[i] == effect
        }),
{
}

/// A request to end the command that the backend takes is followed by the timer behind which the
/// command is ended by force, whatever the request was for.
pub proof fn law_taken_request_sets_the_timer(state: DriverView, cause: Cause)
    requires
        state.wf(),
        state.phase == Phase::AwaitTerm(cause),
    ensures
        ({
            let step = crate::session::driver_step(
                state,
                EventView::TermOutcome(ControlOutcomeView::Done),
            );
            &&& step.effects.contains(Effect::ArmKill)
            &&& step.effects.contains(Effect::Record(TraceKind::GracefulStop))
            &&& step.state.kill_armed && step.state.controller_held
            &&& step.state.phase == Phase::Selecting
            &&& step.state.errors == state.errors && step.state.lifecycle == state.lifecycle
        }),
{
    let effects = crate::session::driver_step(
        state,
        EventView::TermOutcome(ControlOutcomeView::Done),
    ).effects;
    assert(effects[0] == Effect::Record(TraceKind::GracefulStop));
    assert(effects[1] == Effect::ArmKill);
}

/// One that it does not take is followed by the order to end the command by force, and an order is
/// followed by the timer behind which the exit is no longer waited for, whether it was taken or
/// not.
pub proof fn law_refused_request_leads_to_force(
    state: DriverView,
    cause: Cause,
    refused: ControlOutcomeView,
    force: ForceCause,
    outcome: ControlOutcomeView,
)
    requires
        state.wf(),
        !(refused is Done),
    ensures
        state.phase == Phase::AwaitTerm(cause) ==> {
            let step = crate::session::driver_step(state, EventView::TermOutcome(refused));
            &&& step.effects.last() == Effect::ForceStop
            &&& step.state.phase == Phase::AwaitForce(ForceCause::AfterTerm(cause))
            &&& step.state.lifecycle.state == SessionState::Failed
            &&& step.state.lifecycle.termination_reason == Some(TerminationReason::Failed)
            &&& step.state.errors.len() == state.errors.len() + 1
        },
        state.phase == Phase::AwaitForce(force) ==> {
            let step = crate::session::driver_step(state, EventView::ForceOutcome(outcome));
            &&& step.effects.contains(Effect::ArmCleanup)
            &&& step.effects.contains(Effect::Record(TraceKind::ForcedStop)) <==> outcome is Done
            &&& step.state.cleanup_armed && !step.state.controller_held
            &&& step.state.phase == Phase::Selecting
            &&& outcome is Done ==> step.state.errors == state.errors && step.state.lifecycle
                == state.lifecycle
            &&& !(outcome is Done) ==> step.state.lifecycle.state == SessionState::Failed
                && step.state.errors.len() == state.errors.len() + 1
        },
{
    if state.phase == Phase::AwaitForce(force) {
        let effects = crate::session::driver_step(
            state,
            EventView::ForceOutcome(outcome),
        ).effects;
        if outcome is Done {
            assert(effects[0] == Effect::Record(TraceKind::ForcedStop));
            assert(effects[1] == Effect::ArmCleanup);
        } else if force is AfterTerm {
            assert(effects[0] == Effect::ArmCleanup);
        } else {
            assert(effects[1] == Effect::ArmCleanup);
        }
    }
}

/// A request or an order to the backend is the last thing that a step asks for, and it is awaited;
/// nothing else is.
pub proof fn law_backend_is_asked_last(state: DriverView, event: EventView)
    requires
        state.wf(),
        state.expects(event),
    ensures
        ({
            let step = crate::session::driver_step(state, event);
            &&& step.state.phase is AwaitTerm <==> step.effects.contains(Effect::SendTerm)
            &&& step.state.phase is AwaitTerm ==> step.effects.last() == Effect::SendTerm
            &&& step.state.phase is AwaitForce <==> step.effects.contains(Effect::ForceStop)
            &&& step.state.phase is AwaitForce ==> step.effects.last() == Effect::ForceStop
            &&& step.state.phase == Phase::Exited || step.state.phase == Phase::Abandoned
                <==> step.effects.contains(Effect::Finish)
            &&& step.state.phase == Phase::Exited <==> event is ExitKnown
            &&& step.state.phase == Phase::Abandoned <==> event is ExitFailed || event
                is CleanupElapsed
        }),
{
    let step = crate::session::driver_step(state, event);
    lemma_contained(state, event);
    if step.state.phase is AwaitTerm || step.state.phase is AwaitForce || step.state.phase
        == Phase::Exited || step.state.phase == Phase::Abandoned {
        assert(step.effects.contains(step.effects.last())) by {
            assert(step.effects[step.effects.len() - 1] == step.effects.last());
        }
    }
}

/// A shutdown begins with the end of the command's input and with the request to end the command.
pub proof fn law_shutdown_closes_the_input(state: DriverView, event: EventView)
    requires
        state.wf(),
        state.expects(event),
    ensures
        ({
            let step = crate::session::driver_step(state, event);
            !state.shutdown_started && step.state.shutdown_started ==> step.effects.contains(
                Effect::CloseStdin,
            ) && step.effects.contains(Effect::SendTerm)
        }),
{
    let step = crate::session::driver_step(state, event);
    if !state.shutdown_started && step.state.shutdown_started {
        let length = step.effects.len() as int;
        assert(step.effects[length - 2] == Effect::CloseStdin);
        assert(step.effects[length - 1] == Effect::SendTerm);
    }
}

/// Whatever begins a shutdown begins it: a deadline, a stop, the loss of the last owner, or a
/// failure of the input.  Each says how the session stands from then on.
pub proof fn law_shutdown_says_why(state: DriverView, event: EventView)
    requires
        state.wf(),
        state.expects(event),
        !state.shutdown_started,
        state.phase == Phase::Selecting,
    ensures
        ({
            let step = crate::session::driver_step(state, event);
            let life = step.state.lifecycle;
            &&& step.state.shutdown_started <==> {
                ||| event is DeadlineElapsed
                ||| event is StopCommand
                ||| event is CommandsClosed
                ||| event is StdinFailed
            }
            &&& event is DeadlineElapsed ==> life.state == SessionState::TimedOut
                && life.termination_reason == Some(TerminationReason::TimedOut)
                && step.state.timed_out && step.effects.contains(Effect::Record(TraceKind::Timeout))
            &&& event is StopCommand || event is CommandsClosed ==> life.state
                == SessionState::Stopping && life.termination_reason == Some(
                TerminationReason::Cancelled,
            )
            &&& event is StdinFailed ==> life.state == SessionState::Failed
                && life.termination_reason == Some(TerminationReason::Failed)
            &&& event is ExitKnown ==> life.state == SessionState::Stopping
                && life.termination_reason == Some(TerminationReason::Exited)
                && step.effects.contains(Effect::Record(TraceKind::ProcessExited))
            &&& event is ExitFailed ==> life.state == SessionState::Failed
            &&& !(event is DeadlineElapsed) ==> step.state.timed_out == state.timed_out
        }),
{
    let step = crate::session::driver_step(state, event);
    if event is DeadlineElapsed {
        assert(step.effects[1] == Effect::Record(TraceKind::Timeout));
    }
    if event is ExitKnown {
        assert(step.effects[step.effects.len() - 2] == Effect::Record(TraceKind::ProcessExited));
    }
}

/// A status is published whenever the session's state changes, and each that is published tells the
/// state that the session is in after the step and why.
pub proof fn law_changes_are_published(state: DriverView, event: EventView)
    requires
        state.wf(),
        state.expects(event),
    ensures
        ({
            let step = crate::session::driver_step(state, event);
            &&& step.state.lifecycle != state.lifecycle ==> step.effects.len() > 0
                && step.effects[0] is Publish
            &&& forall|i: int|
                0 <= i < step.effects.len() ==> match #[trigger] step.effects[i] {
                    Effect::Publish { state: published, reason, timed_out } => {
                        &&& published == step.state.lifecycle.state
                        &&& reason == step.state.lifecycle.termination_reason
                        &&& timed_out ==> step.state.timed_out || state.phase == Phase::AwaitTerm(
                            Cause::Deadline,
                        )
                        &&& event is DeadlineElapsed || event is ExitFailed && state.timed_out
                            || event is CleanupElapsed && state.timed_out ==> timed_out
                    },
                    _ => true,
                }
        }),
{
}

/// A stop is answered once: at once where a shutdown has begun; otherwise with success when the
/// backend has taken the request, and with the backend's error when it has not.
pub proof fn law_stop_is_answered(
    state: DriverView,
    refused: ControlOutcomeView,
    forced: ControlOutcomeView,
)
    requires
        state.wf(),
        !(refused is Done),
    ensures
        state.expects(EventView::StopCommand) ==> {
            let asked = crate::session::driver_step(state, EventView::StopCommand);
            if state.shutdown_started {
                asked.effects.contains(Effect::ReplyOk)
            } else {
                &&& asked.state.phase == Phase::AwaitTerm(Cause::StopCommand)
                &&& !asked.effects.contains(Effect::ReplyOk)
            }
        },
        state.phase == Phase::AwaitTerm(Cause::StopCommand) ==> {
            &&& crate::session::driver_step(
                state,
                EventView::TermOutcome(ControlOutcomeView::Done),
            ).effects.contains(Effect::ReplyOk)
            &&& crate::session::driver_step(
                state,
                EventView::TermOutcome(refused),
            ).state.phase == Phase::AwaitForce(ForceCause::AfterTerm(Cause::StopCommand))
        },
        state.phase == Phase::AwaitForce(ForceCause::AfterTerm(Cause::StopCommand)) ==> {
            &&& crate::session::driver_step(
                state,
                EventView::ForceOutcome(forced),
            ).effects.contains(Effect::ReplyTermError)
            &&& !crate::session::driver_step(
                state,
                EventView::ForceOutcome(forced),
            ).effects.contains(Effect::ReplyOk)
        },
{
    if state.expects(EventView::StopCommand) && state.shutdown_started {
        assert(crate::session::driver_step(state, EventView::StopCommand).effects[0]
            == Effect::ReplyOk);
    }
    if state.phase == Phase::AwaitTerm(Cause::StopCommand) {
        assert(crate::session::driver_step(
            state,
            EventView::TermOutcome(ControlOutcomeView::Done),
        ).effects[3] == Effect::ReplyOk);
    }
    if state.phase == Phase::AwaitForce(ForceCause::AfterTerm(Cause::StopCommand)) {
        let effects = crate::session::driver_step(state, EventView::ForceOutcome(forced)).effects;
        assert(effects[effects.len() - 1] == Effect::ReplyTermError);
    }
}

/// Nobody is answered who did not ask: replies come only to a stop, and to a command that is handed
/// on; and a command is handed on exactly where there is a backend to hand it to.
pub proof fn law_only_requests_are_answered(state: DriverView, event: EventView)
    requires
        state.wf(),
        state.expects(event),
    ensures
        ({
            let step = crate::session::driver_step(state, event);
            &&& step.effects.contains(Effect::ReplyOk) || step.effects.contains(
                Effect::ReplyTermError,
            ) ==> {
                ||| event is StopCommand
                ||| state.phase == Phase::AwaitTerm(Cause::StopCommand)
                ||| state.phase == Phase::AwaitForce(ForceCause::AfterTerm(Cause::StopCommand))
            }
            &&& step.effects.contains(Effect::Deliver) <==> event is ControlCommand
                && state.controller_held
            &&& step.effects.contains(Effect::ReplyForced) <==> event is ControlCommand
                && !state.controller_held
            &&& event is ControlCommand ==> step.state == state
        }),
{
    lemma_contained(state, event);
    if event is ControlCommand {
        let effects = crate::session::driver_step(state, event).effects;
        assert(effects[0] == effects.last());
    }
}

/// When the time of a request is over, the command is ended by force; when the time of an order is
/// over, its exit is given up.
pub proof fn law_elapsed_timers_are_acted_on(state: DriverView)
    requires
        state.wf(),
        state.phase == Phase::Selecting,
    ensures
        state.kill_armed && state.controller_held ==> {
            let step = crate::session::driver_step(state, EventView::KillElapsed);
            &&& step.effects == seq![Effect::ForceStop]
            &&& step.state.phase == Phase::AwaitForce(ForceCause::KillElapsed)
        },
        state.cleanup_armed ==> {
            let step = crate::session::driver_step(state, EventView::CleanupElapsed);
            &&& step.effects.last() == Effect::Finish
            &&& step.state.phase == Phase::Abandoned
            &&& step.state.lifecycle.state == SessionState::Failed
            &&& step.state.errors.len() == state.errors.len() + 1
        },
{
}

/// Failures are told in words: what failed, and how.
pub proof fn law_failures_are_told(state: DriverView, error: Seq<char>, cause: Cause)
    requires
        state.wf(),
    ensures
        crate::session::driver_step(state, EventView::ExitFailed(error)).state.errors
            == state.errors.push("backend exit wait failed: "@ + error),
        crate::session::driver_step(state, EventView::StdinFailed(error)).state.errors
            == state.errors.push("stdin pump failed: "@ + error),
        crate::session::driver_step(state, EventView::CleanupElapsed).state.errors
            == state.errors.push(
            "backend exit did not complete within the "@ + crate::time::span_text(state.kill_grace)
                + " hard cleanup deadline"@,
        ),
        state.phase == Phase::AwaitTerm(cause) ==> {
            &&& crate::session::driver_step(
                state,
                EventView::TermOutcome(ControlOutcomeView::Failed(error)),
            ).state.errors == state.errors.push("backend "@ + "TERM"@ + (" failed: "@ + error))
            &&& crate::session::driver_step(
                state,
                EventView::TermOutcome(ControlOutcomeView::TimedOut),
            ).state.errors == state.errors.push(
                "backend "@ + "TERM"@ + (" did not complete within "@ + crate::time::span_text(
                    state.kill_grace,
                )),
            )
        },
{
}

/// A session is prepared, started, made ready and run in that order; a running one comes to its end
/// by its command's exit, by a stop, by its deadline or by a failure; a failure can come at any
/// time but after the end; and a session that came to its end dies once it is cleaned up, with the
/// reason that it came to its end for.
pub proof fn law_life_goes_one_way(life: Lifecycle, event: LifecycleEvent)
    ensures
        life.after(event) is Some <==> {
            ||| life.state == SessionState::Created && event == LifecycleEvent::Prepare
            ||| life.state == SessionState::Preparing && event == LifecycleEvent::Start
            ||| life.state == SessionState::Starting && event == LifecycleEvent::AgentReady
            ||| life.state == SessionState::Ready && event == LifecycleEvent::CommandStarted
            ||| life.state == SessionState::Running && (event == LifecycleEvent::CommandExited
                || event == LifecycleEvent::StopRequested || event == LifecycleEvent::Timeout)
            ||| event == LifecycleEvent::Fail && life.state != SessionState::Failed && life.state
                != SessionState::Dead
            ||| event == LifecycleEvent::CleanupComplete && (life.state == SessionState::Stopping
                || life.state == SessionState::TimedOut || life.state == SessionState::Failed)
        },
        life.after(event) matches Some(next) ==> {
            &&& event == LifecycleEvent::Prepare ==> next.state == SessionState::Preparing
            &&& event == LifecycleEvent::Start ==> next.state == SessionState::Starting
            &&& event == LifecycleEvent::AgentReady ==> next.state == SessionState::Ready
            &&& event == LifecycleEvent::CommandStarted ==> next.state == SessionState::Running
            &&& event == LifecycleEvent::CommandExited || event == LifecycleEvent::StopRequested
                ==> next.state == SessionState::Stopping
            &&& event == LifecycleEvent::Timeout ==> next.state == SessionState::TimedOut
            &&& event == LifecycleEvent::Fail ==> next.state == SessionState::Failed
            &&& event == LifecycleEvent::CleanupComplete ==> next.state == SessionState::Dead
            &&& next.termination_reason == (match event {
                LifecycleEvent::CommandExited => Some(TerminationReason::Exited),
                LifecycleEvent::StopRequested => Some(TerminationReason::Cancelled),
                LifecycleEvent::Timeout => Some(TerminationReason::TimedOut),
                LifecycleEvent::Fail => Some(TerminationReason::Failed),
                _ => life.termination_reason,
            })
        },
{
}

/// Whether a request to the pump is answered by an action.
pub open spec fn answers(action: StdinAction) -> bool {
    ||| action == StdinAction::ReplyOk
    ||| action == StdinAction::ReplyErrorAndContinue
    ||| action == StdinAction::ReplyErrorAndEnd
    ||| action == StdinAction::ReplyClosedAndEnd
}

/// Bytes for an open input are written, and then whoever sent them is answered: with success where
/// they were taken, with the error where they were not, and with the end of the input where that
/// came first.
pub proof fn law_written_bytes_are_answered(pump: StdinPump)
    requires
        pump.phase == StdinPhase::Idle,
    ensures
        ({
            let asked = pump.after(StdinEvent::WriteRequest);
            if pump.writer_open {
                &&& asked.1 == StdinAction::WriteBytes
                &&& asked.0.after(StdinEvent::Completed).1 == StdinAction::ReplyOk
                &&& asked.0.after(StdinEvent::Completed).0 == pump
                &&& asked.0.after(StdinEvent::Failed).1 == StdinAction::ReplyErrorAndEnd
                &&& asked.0.after(StdinEvent::Shutdown).1 == StdinAction::ReplyClosedAndEnd
            } else {
                asked.1 == StdinAction::ReplyClosedAndEnd
            }
        }),
{
}

/// The input is closed once: the first request closes it and is answered when that is over, and any
/// later one is answered at once.
pub proof fn law_input_is_closed_once(pump: StdinPump)
    requires
        pump.phase == StdinPhase::Idle,
    ensures
        ({
            let asked = pump.after(StdinEvent::CloseRequest);
            if pump.writer_open {
                let done = asked.0.after(StdinEvent::Completed);
                &&& asked.1 == StdinAction::ShutdownWriter
                &&& done.1 == StdinAction::ReplyOk
                &&& done.0.phase == StdinPhase::Idle && !done.0.writer_open
                &&& asked.0.after(StdinEvent::Failed).1 == StdinAction::ReplyErrorAndContinue
                &&& done.0.after(StdinEvent::CloseRequest) == (done.0, StdinAction::ReplyOk)
            } else {
                asked == (pump, StdinAction::ReplyOk)
            }
        }),
{
}

/// The pump goes on until it is shut down, no more requests can come or writing fails, and answers
/// nobody who did not ask.
pub proof fn law_pump_goes_on(pump: StdinPump, event: StdinEvent)
    requires
        pump.expects(event),
    ensures
        ({
            let (next, action) = pump.after(event);
            &&& next.phase == StdinPhase::Ended <==> {
                ||| event == StdinEvent::Shutdown
                ||| event == StdinEvent::RequestsClosed
                ||| event == StdinEvent::Failed && pump.phase != StdinPhase::Closing
                ||| event == StdinEvent::WriteRequest && !pump.writer_open
            }
            &&& answers(action) ==> pump.phase == StdinPhase::Writing || pump.phase
                == StdinPhase::Closing || pump.phase == StdinPhase::Idle && (event
                == StdinEvent::CloseRequest || event == StdinEvent::WriteRequest)
            &&& pump.phase == StdinPhase::Writing ==> answers(action)
            &&& pump.phase == StdinPhase::WritingInitial && event == StdinEvent::Failed ==> action
                == StdinAction::EndFailed
            &&& pump.phase == StdinPhase::WritingInitial && event == StdinEvent::Completed
                ==> action == StdinAction::AwaitRequest && next.phase == StdinPhase::Idle
                && next.writer_open == pump.writer_open
        }),
{
}

/// The pump begins with the initial input where there is one, and fails where there is nothing to
/// write it to.
pub proof fn law_initial_input_comes_first(writer: bool, initial: nat)
    ensures
        ({
            let (pump, action) = crate::session::stdin::stdin_start(writer, initial);
            &&& pump.writer_open == writer
            &&& initial > 0 && writer ==> action == StdinAction::WriteInitial && pump.phase
                == StdinPhase::WritingInitial
            &&& initial > 0 && !writer ==> action == StdinAction::EndUnavailable && pump.phase
                == StdinPhase::Ended
            &&& initial == 0 ==> action == StdinAction::AwaitRequest && pump.phase
                == StdinPhase::Idle
        }),
{
}

/// What is over stays over and what is not goes on: the input and the commands are over once they
/// were told to be, the backend is let go only with the order to end the command, failures are only
/// added, and nothing changes the time that is given.
pub proof fn law_what_is_over_stays_over(state: DriverView, event: EventView)
    requires
        state.wf(),
        state.expects(event),
    ensures
        ({
            let after = crate::session::driver_step(state, event).state;
            &&& after.stdin_open <==> state.stdin_open && !(event is StdinDone) && !(event
                is StdinFailed)
            &&& after.commands_open <==> state.commands_open && !(event is CommandsClosed)
            &&& after.controller_held <==> state.controller_held && !(event is ForceOutcome)
            &&& state.errors.is_prefix_of(after.errors)
            &&& after.errors.len() <= state.errors.len() + 1
            &&& after.kill_grace == state.kill_grace
            &&& state.shutdown_started ==> after.shutdown_started
            &&& state.timed_out ==> after.timed_out
            &&& state.cleanup_armed ==> after.cleanup_armed
            &&& event is StdinDone ==> after.lifecycle == state.lifecycle && after.phase
                == state.phase
        }),
{
}

/// A failure on the way is published as one after the deadline exactly where there was one before
/// it.
pub proof fn law_failures_after_the_deadline_say_so(
    state: DriverView,
    cause: Cause,
    force: ForceCause,
    refused: ControlOutcomeView,
)
    requires
        state.wf(),
        !(refused is Done),
    ensures
        state.phase == Phase::AwaitTerm(cause) && cause != Cause::StdinFailed ==> {
            let step = crate::session::driver_step(state, EventView::TermOutcome(refused));
            step.effects[0] == (Effect::Publish {
                state: SessionState::Failed,
                reason: Some(TerminationReason::Failed),
                timed_out: cause == Cause::Deadline,
            })
        },
        state.phase == Phase::AwaitForce(force) && !(force is AfterTerm) ==> {
            let step = crate::session::driver_step(state, EventView::ForceOutcome(refused));
            step.effects[0] == (Effect::Publish {
                state: SessionState::Failed,
                reason: Some(TerminationReason::Failed),
                timed_out: state.timed_out,
            })
        },
{
}

/// An order that fails is told, and so is one that finds the backend let go already; then the exit
/// is waited for all the same.
pub proof fn law_failed_orders_are_told(
    state: DriverView,
    force: ForceCause,
    error: Seq<char>,
)
    requires
        state.wf(),
    ensures
        state.phase == Phase::AwaitForce(force) ==> {
            &&& crate::session::driver_step(
                state,
                EventView::ForceOutcome(ControlOutcomeView::Failed(error)),
            ).state.errors == state.errors.push(
                "backend "@ + "force-stop"@ + (" failed: "@ + error),
            )
            &&& crate::session::driver_step(
                state,
                EventView::ForceOutcome(ControlOutcomeView::TimedOut),
            ).state.errors == state.errors.push(
                "backend "@ + "force-stop"@ + (" did not complete within "@
                    + crate::time::span_text(state.kill_grace)),
            )
        },
        state.phase == Phase::Selecting && !state.controller_held && state.kill_armed ==> {
            let step = crate::session::driver_step(state, EventView::KillElapsed);
            &&& step.state.errors == state.errors.push(
                "backend controller was already released"@,
            )
            &&& step.state.lifecycle.state == SessionState::Failed
            &&& step.state.cleanup_armed && !step.state.kill_armed
            &&& step.effects.last() == Effect::ArmCleanup
        },
{
}

} // verus!
