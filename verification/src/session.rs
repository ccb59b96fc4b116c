//! The state machine that drives a session from its running command to its death, and the rules
//! of the handle by which a session is used.
//!
//! The caller waits for events, hands them in, and performs the effects that come back in their
//! order.  A request to the backend (`SendTerm`, `ForceStop`) is the last effect of its step; its
//! outcome is the next event.

pub mod conduct;
pub mod finish;
pub mod handle;
pub mod outcome;
pub mod stdin;
pub mod teardown;

use vstd::prelude::*;
use vstd::string::*;

use crate::lifecycle::{Lifecycle, LifecycleEvent, SessionState, TerminationReason};
use crate::text::{join, join3};
use crate::time::Duration;
use crate::trace::TraceKind;

verus! {

pub const STDIN_QUEUE_ITEMS: usize = 32;

pub const STDIN_QUEUE_BYTES: usize = 1024 * 1024;

pub const MAX_SESSION_OUTPUT_READ_BYTES: usize = 8 * 1024 * 1024;

/// Why the backend was asked to end the command.
#[derive(Debug, Clone, Copy, PartialEq, Eq, Structural)]
pub enum Cause {
    StdinFailed,
    OwnerGone,
    StopCommand,
    Deadline,
}

/// Why the backend was told to end the command by force.
#[derive(Debug, Clone, Copy, PartialEq, Eq, Structural)]
pub enum ForceCause {
    /// It could not be asked to.
    AfterTerm(Cause),
    /// The last owner left while no timer was set.
    OwnerGone,
    /// It was asked and did not end in time.
    KillElapsed,
}

#[derive(Debug, Clone, Copy, PartialEq, Eq, Structural)]
pub enum Phase {
    /// Waiting for any event.
    Selecting,
    /// Waiting for the backend to take the request to end.
    AwaitTerm(Cause),
    /// Waiting for the backend to take the order to end.
    AwaitForce(ForceCause),
    /// The command's exit is known.
    Exited,
    /// The command's exit will not be known.
    Abandoned,
}

/// The outcome of a request that the backend had a bounded time for.
#[derive(Debug)]
pub enum ControlOutcome {
    Done,
    Failed(String),
    TimedOut,
}

pub enum ControlOutcomeView {
    Done,
    Failed(Seq<char>),
    TimedOut,
}

impl View for ControlOutcome {
    type V = ControlOutcomeView;

    open spec fn view(&self) -> ControlOutcomeView {
        match *self {
            ControlOutcome::Done => ControlOutcomeView::Done,
            ControlOutcome::Failed(error) => ControlOutcomeView::Failed(error@),
            ControlOutcome::TimedOut => ControlOutcomeView::TimedOut,
        }
    }
}

#[derive(Debug)]
pub enum SessionEvent {
    /// The command has exited, and its status is known.
    ExitKnown,
    /// Waiting for the command's exit failed.
    ExitFailed(String),
    StdinDone,
    StdinFailed(String),
    /// The last handle is gone.
    CommandsClosed,
    /// A signal or a new terminal size, to be handed to the backend.
    ControlCommand,
    StopCommand,
    DeadlineElapsed,
    KillElapsed,
    CleanupElapsed,
    TermOutcome(ControlOutcome),
    ForceOutcome(ControlOutcome),
}

pub enum EventView {
    ExitKnown,
    ExitFailed(Seq<char>),
    StdinDone,
    StdinFailed(Seq<char>),
    CommandsClosed,
    ControlCommand,
    StopCommand,
    DeadlineElapsed,
    KillElapsed,
    CleanupElapsed,
    TermOutcome(ControlOutcomeView),
    ForceOutcome(ControlOutcomeView),
}

impl View for SessionEvent {
    type V = EventView;

    open spec fn view(&self) -> EventView {
        match *self {
            SessionEvent::ExitKnown => EventView::ExitKnown,
            SessionEvent::ExitFailed(error) => EventView::ExitFailed(error@),
            SessionEvent::StdinDone => EventView::StdinDone,
            SessionEvent::StdinFailed(error) => EventView::StdinFailed(error@),
            SessionEvent::CommandsClosed => EventView::CommandsClosed,
            SessionEvent::ControlCommand => EventView::ControlCommand,
            SessionEvent::StopCommand => EventView::StopCommand,
            SessionEvent::DeadlineElapsed => EventView::DeadlineElapsed,
            SessionEvent::KillElapsed => EventView::KillElapsed,
            SessionEvent::CleanupElapsed => EventView::CleanupElapsed,
            SessionEvent::TermOutcome(outcome) => EventView::TermOutcome(outcome@),
            SessionEvent::ForceOutcome(outcome) => EventView::ForceOutcome(outcome@),
        }
    }
}

/// What the caller is to do.
#[derive(Debug, Clone, Copy, PartialEq, Eq, Structural)]
pub enum Effect {
    /// Publish a status without an exit code.
    Publish { state: SessionState, reason: Option<TerminationReason>, timed_out: bool },
    Record(TraceKind),
    CloseStdin,
    SendTerm,
    ForceStop,
    /// Set the timer behind which the command is ended by force.
    ArmKill,
    /// Set the timer behind which its exit is no longer waited for.
    ArmCleanup,
    DisarmDeadline,
    /// Hand the pending command to the backend and reply with what it says.
    Deliver,
    /// Reply to the pending command.
    ReplyOk,
    ReplyForced,
    ReplyTermError,
    /// Stop waiting for events.
    Finish,
}

/// The state of a session whose command runs.
pub struct SessionDriver {
    lifecycle: Lifecycle,
    phase: Phase,
    timed_out: bool,
    commands_open: bool,
    shutdown_started: bool,
    stdin_open: bool,
    controller_held: bool,
    deadline_armed: bool,
    kill_armed: bool,
    cleanup_armed: bool,
    errors: Vec<String>,
    kill_grace: Duration,
}

#[verifier::ext_equal]
pub struct DriverView {
    pub lifecycle: Lifecycle,
    pub phase: Phase,
    pub timed_out: bool,
    pub commands_open: bool,
    pub shutdown_started: bool,
    pub stdin_open: bool,
    pub controller_held: bool,
    pub deadline_armed: bool,
    pub kill_armed: bool,
    pub cleanup_armed: bool,
    pub errors: Seq<Seq<char>>,
    pub kill_grace: int,
}

impl View for SessionDriver {
    type V = DriverView;

    closed spec fn view(&self) -> DriverView {
        DriverView {
            lifecycle: self.lifecycle,
            phase: self.phase,
            timed_out: self.timed_out,
            commands_open: self.commands_open,
            shutdown_started: self.shutdown_started,
            stdin_open: self.stdin_open,
            controller_held: self.controller_held,
            deadline_armed: self.deadline_armed,
            kill_armed: self.kill_armed,
            cleanup_armed: self.cleanup_armed,
            errors: crate::text::strings(self.errors@),
            kill_grace: self.kill_grace@,
        }
    }
}

/// The message of a request that the backend did not take.
pub open spec fn control_error(
    operation: Seq<char>,
    outcome: ControlOutcomeView,
    deadline: int,
) -> Option<Seq<char>> {
    match outcome {
        ControlOutcomeView::Done => None,
        ControlOutcomeView::Failed(error) => Some(
            "backend "@ + operation + (" failed: "@ + error),
        ),
        ControlOutcomeView::TimedOut => Some(
            "backend "@ + operation + (" did not complete within "@ + crate::time::span_text(
                deadline,
            )),
        ),
    }
}

/// Puts the outcome of a request into words; `None` where the backend took it.
pub fn bounded_session_control(
    operation: &str,
    outcome: &ControlOutcome,
    deadline: Duration,
) -> (error: Option<String>)
    ensures
        match error {
            Some(message) => control_error(operation@, outcome@, deadline@) == Some(message@),
            None => control_error(operation@, outcome@, deadline@) is None,
        },
{
    match outcome {
        ControlOutcome::Done => None,
        ControlOutcome::Failed(error) => Some(
            join3("backend ", operation, join(" failed: ", error.as_str()).as_str()),
        ),
        ControlOutcome::TimedOut => Some(
            join3(
                "backend ",
                operation,
                join(" did not complete within ", deadline.text().as_str()).as_str(),
            ),
        ),
    }
}

impl DriverView {
    /// The states in which a session is driven.
    pub open spec fn state_is_live(self) -> bool {
        ||| self.lifecycle.state == SessionState::Running
        ||| self.lifecycle.state == SessionState::Stopping
        ||| self.lifecycle.state == SessionState::TimedOut
        ||| self.lifecycle.state == SessionState::Failed
    }

    /// What holds between any two events.
    pub open spec fn wf(self) -> bool {
        &&& self.state_is_live()
        &&& !self.shutdown_started ==> self.lifecycle.termination_reason is None || self.phase
            == Phase::Exited || self.phase == Phase::Abandoned
        &&& self.errors.len() > 0 ==> self.lifecycle.state == SessionState::Failed
        &&& self.lifecycle.state == SessionState::Failed ==> self.lifecycle.termination_reason
            == Some(TerminationReason::Failed)
        &&& self.lifecycle.state == SessionState::TimedOut ==> self.timed_out
            && self.lifecycle.termination_reason == Some(TerminationReason::TimedOut)
        &&& self.timed_out ==> self.shutdown_started && self.lifecycle.state
            != SessionState::Running && self.lifecycle.state != SessionState::Stopping
        &&& match self.phase {
            Phase::Selecting => {
                &&& self.shutdown_started ==> (self.kill_armed || self.cleanup_armed)
                    && !self.deadline_armed && self.lifecycle.state != SessionState::Running
                &&& !self.shutdown_started ==> self.lifecycle.state == SessionState::Running
                    && self.controller_held && !self.kill_armed && !self.cleanup_armed
                &&& !self.controller_held ==> self.cleanup_armed
            },
            Phase::AwaitTerm(cause) => {
                &&& self.shutdown_started && self.controller_held
                &&& self.lifecycle.state != SessionState::Running
                &&& cause == Cause::StdinFailed ==> self.lifecycle.state == SessionState::Failed
                    && !self.deadline_armed
            },
            Phase::AwaitForce(cause) => {
                &&& self.shutdown_started && self.controller_held
                &&& self.lifecycle.state != SessionState::Running
                &&& (cause is AfterTerm || self.deadline_armed == false)
                &&& cause == ForceCause::AfterTerm(Cause::StdinFailed) ==> !self.deadline_armed
                &&& cause is AfterTerm ==> self.errors.len() > 0
            },
            Phase::Exited => self.lifecycle.state != SessionState::Running,
            Phase::Abandoned => self.lifecycle.state == SessionState::Failed,
        }
    }

    /// The events that can come.
    pub open spec fn expects(self, event: EventView) -> bool {
        match self.phase {
            Phase::Selecting => match event {
                EventView::ExitKnown | EventView::ExitFailed(_) => true,
                EventView::StdinDone => self.stdin_open,
                EventView::StdinFailed(_) => self.stdin_open && self.controller_held,
                EventView::CommandsClosed
                | EventView::ControlCommand
                | EventView::StopCommand => self.commands_open,
                EventView::DeadlineElapsed => self.deadline_armed,
                EventView::KillElapsed => self.kill_armed,
                EventView::CleanupElapsed => self.cleanup_armed,
                EventView::TermOutcome(_) | EventView::ForceOutcome(_) => false,
            },
            Phase::AwaitTerm(_) => event is TermOutcome,
            Phase::AwaitForce(_) => event is ForceOutcome,
            Phase::Exited | Phase::Abandoned => false,
        }
    }

    pub open spec fn published(self, timed_out: bool) -> Effect {
        Effect::Publish {
            state: self.lifecycle.state,
            reason: self.lifecycle.termination_reason,
            timed_out,
        }
    }

    /// After a lifecycle event that belongs to the state.
    pub open spec fn moved(self, event: LifecycleEvent) -> DriverView {
        match self.lifecycle.after(event) {
            Some(lifecycle) => DriverView { lifecycle, ..self },
            None => self,
        }
    }

    /// After a failure; a session that has failed stays as it is.
    pub open spec fn failed(self) -> DriverView {
        self.moved(LifecycleEvent::Fail)
    }

    pub open spec fn with_error(self, message: Seq<char>) -> DriverView {
        DriverView { errors: self.errors.push(message), ..self }
    }
}

/// A new state and what is to be done.
pub struct DriverStep {
    pub state: DriverView,
    pub effects: Seq<Effect>,
}

/// Begins to shut down for a cause: the backend is asked to end the command.
pub open spec fn ask_to_end(
    state: DriverView,
    cause: Cause,
    before: Seq<Effect>,
    timed_out: bool,
) -> DriverStep {
    let asked = DriverView { shutdown_started: true, phase: Phase::AwaitTerm(cause), ..state };
    DriverStep {
        state: asked,
        effects: seq![asked.published(timed_out)] + before + seq![
            Effect::CloseStdin,
            Effect::SendTerm,
        ],
    }
}

/// The effects that close the handling of a cause.
pub open spec fn closing_effects(cause: Cause, accepted: bool) -> Seq<Effect> {
    match cause {
        Cause::StdinFailed => Seq::empty(),
        Cause::OwnerGone | Cause::Deadline => seq![Effect::DisarmDeadline],
        Cause::StopCommand => seq![
            Effect::DisarmDeadline,
            if accepted {
                Effect::ReplyOk
            } else {
                Effect::ReplyTermError
            },
        ],
    }
}

/// The flag under which a failed request is published: set for a deadline alone.
pub open spec fn failure_flag(cause: Cause) -> bool {
    cause == Cause::Deadline
}

/// The answer of the backend to the request to end the command.
pub open spec fn term_step(
    state: DriverView,
    cause: Cause,
    outcome: ControlOutcomeView,
) -> DriverStep {
    match control_error("TERM"@, outcome, state.kill_grace) {
        None => DriverStep {
            state: DriverView {
                phase: Phase::Selecting,
                kill_armed: true,
                deadline_armed: false,
                ..state
            },
            effects: seq![Effect::Record(TraceKind::GracefulStop), Effect::ArmKill]
                + closing_effects(cause, true),
        },
        Some(message) => {
            let forced = DriverView {
                phase: Phase::AwaitForce(ForceCause::AfterTerm(cause)),
                ..state.with_error(message).failed()
            };
            DriverStep {
                state: forced,
                effects: if cause == Cause::StdinFailed {
                    seq![Effect::ForceStop]
                } else {
                    seq![forced.published(failure_flag(cause)), Effect::ForceStop]
                },
            }
        },
    }
}

/// The answer of the backend to the order to end the command.
pub open spec fn force_step(
    state: DriverView,
    cause: ForceCause,
    error: Option<Seq<char>>,
) -> DriverStep {
    let released = DriverView {
        phase: Phase::Selecting,
        controller_held: false,
        cleanup_armed: true,
        deadline_armed: false,
        kill_armed: if cause == ForceCause::KillElapsed {
            false
        } else {
            state.kill_armed
        },
        ..state
    };
    let closing = match cause {
        ForceCause::AfterTerm(asked) => closing_effects(asked, false),
        _ => Seq::empty(),
    };
    match error {
        None => DriverStep {
            state: released,
            effects: seq![Effect::Record(TraceKind::ForcedStop), Effect::ArmCleanup] + closing,
        },
        Some(message) => {
            let failed = released.with_error(message).failed();
            DriverStep {
                state: failed,
                effects: if cause is AfterTerm {
                    seq![Effect::ArmCleanup] + closing
                } else {
                    seq![failed.published(state.timed_out), Effect::ArmCleanup]
                },
            }
        },
    }
}

/// The message of an order that comes when the backend has been let go.
pub open spec fn released_error() -> Seq<char> {
    "backend controller was already released"@
}

/// What an event that is expected leads to.
pub open spec fn driver_step(state: DriverView, event: EventView) -> DriverStep {
    match event {
        EventView::ExitKnown => {
            let running = state.lifecycle.state == SessionState::Running;
            let exited = if running {
                state.moved(LifecycleEvent::CommandExited)
            } else {
                state
            };
            DriverStep {
                state: DriverView { phase: Phase::Exited, ..exited },
                effects: (if running {
                    seq![exited.published(state.timed_out)]
                } else {
                    Seq::empty()
                }) + seq![Effect::Record(TraceKind::ProcessExited), Effect::Finish],
            }
        },
        EventView::ExitFailed(error) => {
            let failed = state.with_error("backend exit wait failed: "@ + error).failed();
            DriverStep {
                state: DriverView { phase: Phase::Abandoned, ..failed },
                effects: seq![failed.published(state.timed_out), Effect::Finish],
            }
        },
        EventView::StdinDone => DriverStep {
            state: DriverView { stdin_open: false, ..state },
            effects: Seq::empty(),
        },
        EventView::StdinFailed(error) => ask_to_end(
            DriverView {
                stdin_open: false,
                deadline_armed: false,
                ..state.with_error("stdin pump failed: "@ + error).failed()
            },
            Cause::StdinFailed,
            seq![Effect::DisarmDeadline],
            false,
        ),
        EventView::CommandsClosed => {
            let closed = DriverView { commands_open: false, ..state };
            if !state.shutdown_started {
                ask_to_end(
                    closed.moved(LifecycleEvent::StopRequested),
                    Cause::OwnerGone,
                    Seq::empty(),
                    false,
                )
            } else if !state.kill_armed && !state.cleanup_armed && state.controller_held {
                DriverStep {
                    state: DriverView {
                        phase: Phase::AwaitForce(ForceCause::OwnerGone),
                        ..closed
                    },
                    effects: seq![Effect::ForceStop],
                }
            } else {
                DriverStep { state: closed, effects: Seq::empty() }
            }
        },
        EventView::ControlCommand => DriverStep {
            state,
            effects: seq![
                if state.controller_held {
                    Effect::Deliver
                } else {
                    Effect::ReplyForced
                },
            ],
        },
        EventView::StopCommand => if state.shutdown_started {
            DriverStep { state, effects: seq![Effect::ReplyOk] }
        } else {
            ask_to_end(
                state.moved(LifecycleEvent::StopRequested),
                Cause::StopCommand,
                Seq::empty(),
                false,
            )
        },
        EventView::DeadlineElapsed => ask_to_end(
            DriverView { timed_out: true, ..state.moved(LifecycleEvent::Timeout) },
            Cause::Deadline,
            seq![Effect::Record(TraceKind::Timeout)],
            true,
        ),
        EventView::KillElapsed => if state.controller_held {
            DriverStep {
                state: DriverView { phase: Phase::AwaitForce(ForceCause::KillElapsed), ..state },
                effects: seq![Effect::ForceStop],
            }
        } else {
            force_step(state, ForceCause::KillElapsed, Some(released_error()))
        },
        EventView::CleanupElapsed => {
            let failed = state.with_error(
                "backend exit did not complete within the "@ + crate::time::span_text(
                    state.kill_grace,
                ) + " hard cleanup deadline"@,
            ).failed();
            DriverStep {
                state: DriverView { phase: Phase::Abandoned, ..failed },
                effects: seq![failed.published(state.timed_out), Effect::Finish],
            }
        },
        EventView::TermOutcome(outcome) => match state.phase {
            Phase::AwaitTerm(cause) => term_step(state, cause, outcome),
            _ => DriverStep { state, effects: Seq::empty() },
        },
        EventView::ForceOutcome(outcome) => match state.phase {
            Phase::AwaitForce(cause) => force_step(
                state,
                cause,
                control_error("force-stop"@, outcome, state.kill_grace),
            ),
            _ => DriverStep { state, effects: Seq::empty() },
        },
    }
}

/// No event leads to a lifecycle transition that does not exist, nor out of what holds between
/// events: the session engine never meets an invalid transition.
pub proof fn law_driver_stays_well_formed(state: DriverView, event: EventView)
    requires
        state.wf(),
        state.expects(event),
    ensures
        driver_step(state, event).state.wf(),
        event is ExitKnown && state.lifecycle.state == SessionState::Running
            ==> state.lifecycle.after(LifecycleEvent::CommandExited) is Some,
        (event is StopCommand || event is CommandsClosed) && !state.shutdown_started
            ==> state.lifecycle.after(LifecycleEvent::StopRequested) is Some,
        event is DeadlineElapsed ==> state.lifecycle.after(LifecycleEvent::Timeout) is Some,
{
}

/// A repeated stop changes nothing: the timers that the first one set stay as they are.
pub proof fn law_repeated_stop_changes_nothing(state: DriverView)
    requires
        state.wf(),
        state.expects(EventView::StopCommand),
        state.shutdown_started,
    ensures
        driver_step(state, EventView::StopCommand).state == state,
        driver_step(state, EventView::StopCommand).effects == seq![Effect::ReplyOk],
{
}

/// The backend is asked to end the command at most once for stops, deadlines and lost owners
/// together: only where no shutdown has begun, and one has begun from then on.  The one cause that
/// can ask again is a failure of the command's input.
pub proof fn law_term_is_sent_once(state: DriverView, event: EventView)
    requires
        state.wf(),
        state.expects(event),
        !(event is StdinFailed),
        driver_step(state, event).effects.contains(Effect::SendTerm),
    ensures
        !state.shutdown_started,
        driver_step(state, event).state.shutdown_started,
{
}

/// A shutdown that has begun is never taken back.
pub proof fn law_shutdown_is_final(state: DriverView, event: EventView)
    requires
        state.wf(),
        state.expects(event),
        state.shutdown_started,
    ensures
        driver_step(state, event).state.shutdown_started,
{
}

/// The backend is let go with the first order to end the command by force, and no second order
/// follows.
pub proof fn law_force_is_sent_once(state: DriverView, event: EventView)
    requires
        state.wf(),
        state.expects(event),
    ensures
        driver_step(state, event).effects.contains(Effect::ForceStop) ==> state.controller_held
            && driver_step(state, event).state.phase is AwaitForce,
        state.phase is AwaitForce ==> !driver_step(state, event).state.controller_held,
        !state.controller_held ==> !driver_step(state, event).state.controller_held,
{
}

/// A request that the backend took is followed up: the timer is set behind which the command is
/// ended by force, and behind that the timer for its cleanup.
pub proof fn law_term_escalates_to_force(
    state: DriverView,
    term: ControlOutcomeView,
    force: ControlOutcomeView,
)
    requires
        state.wf(),
        state.phase is AwaitTerm,
        term is Done,
    ensures
        ({
            let asked = driver_step(state, EventView::TermOutcome(term)).state;
            let ordered = driver_step(asked, EventView::KillElapsed).state;
            let released = driver_step(ordered, EventView::ForceOutcome(force)).state;
            &&& asked.kill_armed && asked.expects(EventView::KillElapsed)
            &&& ordered.phase == Phase::AwaitForce(ForceCause::KillElapsed)
            &&& released.cleanup_armed && released.expects(EventView::CleanupElapsed)
        }),
{
}

impl SessionDriver {
    pub open spec fn wf(self) -> bool {
        self@.wf()
    }

    /// A session whose command has just been started, with a deadline where it has a time limit.
    pub fn new(lifecycle: Lifecycle, has_deadline: bool, kill_grace: Duration) -> (driver:
        SessionDriver)
        requires
            lifecycle.state == SessionState::Running,
            lifecycle.termination_reason is None,
        ensures
            driver.wf(),
            driver@ == (DriverView {
                lifecycle,
                phase: Phase::Selecting,
                timed_out: false,
                commands_open: true,
                shutdown_started: false,
                stdin_open: true,
                controller_held: true,
                deadline_armed: has_deadline,
                kill_armed: false,
                cleanup_armed: false,
                errors: Seq::empty(),
                kill_grace: kill_grace@,
            }),
    {
        let errors: Vec<String> = Vec::new();
        assert(crate::text::strings(errors@) =~= Seq::empty());
        SessionDriver {
            lifecycle,
            phase: Phase::Selecting,
            timed_out: false,
            commands_open: true,
            shutdown_started: false,
            stdin_open: true,
            controller_held: true,
            deadline_armed: has_deadline,
            kill_armed: false,
            cleanup_armed: false,
            errors,
            kill_grace,
        }
    }

    /// Whether the input has not ended yet.
    pub fn is_stdin_open(&self) -> (open: bool)
        ensures
            open == self@.stdin_open,
    {
        self.stdin_open
    }

    /// The time that each part of the end may take.
    pub fn kill_grace(&self) -> (grace: Duration)
        ensures
            grace@ == self@.kill_grace,
    {
        self.kill_grace
    }

    /// What is left of the machine for its end.
    pub fn into_parts(self) -> (parts: (Lifecycle, Phase, bool, Vec<String>))
        ensures
            parts.0 == self@.lifecycle,
            parts.1 == self@.phase,
            parts.2 == self@.timed_out,
            crate::text::strings(parts.3@) == self@.errors,
    {
        (self.lifecycle, self.phase, self.timed_out, self.errors)
    }

    fn push_error(&mut self, message: String)
        ensures
            final(self)@ == old(self)@.with_error(message@),
    {
        let ghost before = self.errors@;
        let ghost text = message@;
        self.errors.push(message);
        assert(crate::text::strings(self.errors@) =~= crate::text::strings(before).push(text));
        assert(self@ =~= old(self)@.with_error(text));
    }

    fn move_on(&mut self, event: LifecycleEvent)
        ensures
            final(self)@ == old(self)@.moved(event),
    {
        let mut lifecycle = self.lifecycle;
        match lifecycle.apply(event) {
            Ok(()) => {
                self.lifecycle = lifecycle;
            },
            Err(_) => {},
        }
        assert(self@ =~= old(self)@.moved(event));
    }

    fn published(&self, timed_out: bool) -> (effect: Effect)
        ensures
            effect == self@.published(timed_out),
    {
        Effect::Publish {
            state: self.lifecycle.state,
            reason: self.lifecycle.termination_reason,
            timed_out,
        }
    }

    fn push_closing(effects: &mut Vec<Effect>, cause: Cause, accepted: bool)
        ensures
            final(effects)@ == old(effects)@ + closing_effects(cause, accepted),
    {
        match cause {
            Cause::StdinFailed => {},
            Cause::OwnerGone | Cause::Deadline => {
                effects.push(Effect::DisarmDeadline);
            },
            Cause::StopCommand => {
                effects.push(Effect::DisarmDeadline);
                effects.push(
                    if accepted {
                        Effect::ReplyOk
                    } else {
                        Effect::ReplyTermError
                    },
                );
            },
        }
        assert(effects@ =~= old(effects)@ + closing_effects(cause, accepted));
    }

    fn begin_end(&mut self, cause: Cause, before: Option<Effect>, timed_out: bool) -> (effects: Vec<
        Effect,
    >)
        ensures
            ({
                let listed = match before {
                    Some(effect) => seq![effect],
                    None => Seq::empty(),
                };
                let step = ask_to_end(old(self)@, cause, listed, timed_out);
                final(self)@ == step.state && effects@ == step.effects
            }),
    {
        self.shutdown_started = true;
        self.phase = Phase::AwaitTerm(cause);
        let mut effects: Vec<Effect> = Vec::new();
        effects.push(self.published(timed_out));
        match before {
            Some(effect) => {
                effects.push(effect);
            },
            None => {},
        }
        effects.push(Effect::CloseStdin);
        effects.push(Effect::SendTerm);
        proof {
            let listed = match before {
                Some(effect) => seq![effect],
                None => Seq::empty(),
            };
            let step = ask_to_end(old(self)@, cause, listed, timed_out);
            assert(self@ =~= step.state);
            assert(effects@ =~= step.effects);
        }
        effects
    }

    fn end_by_force(&mut self, cause: ForceCause, error: Option<String>) -> (effects: Vec<Effect>)
        ensures
            ({
                let step = force_step(old(self)@, cause, crate::text::text_of(error));
                final(self)@ == step.state && effects@ == step.effects
            }),
    {
        let ghost before = self@;
        let timed_out: bool = self.timed_out;
        self.phase = Phase::Selecting;
        self.controller_held = false;
        self.cleanup_armed = true;
        self.deadline_armed = false;
        if cause == ForceCause::KillElapsed {
            self.kill_armed = false;
        }
        let mut effects: Vec<Effect> = Vec::new();
        let ghost given = crate::text::text_of(error);
        match error {
            None => {
                effects.push(Effect::Record(TraceKind::ForcedStop));
                effects.push(Effect::ArmCleanup);
            },
            Some(message) => {
                self.push_error(message);
                self.move_on(LifecycleEvent::Fail);
                match cause {
                    ForceCause::AfterTerm(_) => {},
                    _ => {
                        effects.push(self.published(timed_out));
                    },
                }
                effects.push(Effect::ArmCleanup);
            },
        }
        match cause {
            ForceCause::AfterTerm(asked) => {
                Self::push_closing(&mut effects, asked, false);
            },
            _ => {},
        }
        proof {
            let step = force_step(before, cause, given);
            assert(self@ =~= step.state);
            assert(effects@ =~= step.effects);
        }
        effects
    }

    /// Takes an event and tells what is to be done.
    #[verifier::rlimit(40)]
    pub fn step(&mut self, event: SessionEvent) -> (effects: Vec<Effect>)
        requires
            old(self).wf(),
            old(self)@.expects(event@),
        ensures
            final(self).wf(),
            final(self)@ == driver_step(old(self)@, event@).state,
            effects@ == driver_step(old(self)@, event@).effects,
    {
        proof {
            law_driver_stays_well_formed(self@, event@);
        }
        let ghost before = self@;
        let ghost seen = event@;
        let ghost expected = driver_step(before, seen);
        let mut effects: Vec<Effect> = Vec::new();
        match event {
            SessionEvent::ExitKnown => {
                if self.lifecycle.state == SessionState::Running {
                    self.move_on(LifecycleEvent::CommandExited);
                    effects.push(self.published(self.timed_out));
                }
                self.phase = Phase::Exited;
                effects.push(Effect::Record(TraceKind::ProcessExited));
                effects.push(Effect::Finish);
            },
            SessionEvent::ExitFailed(error) => {
                self.push_error(join("backend exit wait failed: ", error.as_str()));
                self.move_on(LifecycleEvent::Fail);
                effects.push(self.published(self.timed_out));
                effects.push(Effect::Finish);
                self.phase = Phase::Abandoned;
            },
            SessionEvent::StdinDone => {
                self.stdin_open = false;
            },
            SessionEvent::StdinFailed(error) => {
                self.push_error(join("stdin pump failed: ", error.as_str()));
                self.move_on(LifecycleEvent::Fail);
                self.stdin_open = false;
                self.deadline_armed = false;
                effects = self.begin_end(Cause::StdinFailed, Some(Effect::DisarmDeadline), false);
            },
            SessionEvent::CommandsClosed => {
                self.commands_open = false;
                if !self.shutdown_started {
                    self.move_on(LifecycleEvent::StopRequested);
                    effects = self.begin_end(Cause::OwnerGone, None, false);
                } else if !self.kill_armed && !self.cleanup_armed && self.controller_held {
                    self.phase = Phase::AwaitForce(ForceCause::OwnerGone);
                    effects.push(Effect::ForceStop);
                }
            },
            SessionEvent::ControlCommand => {
                effects.push(
                    if self.controller_held {
                        Effect::Deliver
                    } else {
                        Effect::ReplyForced
                    },
                );
            },
            SessionEvent::StopCommand => {
                if self.shutdown_started {
                    effects.push(Effect::ReplyOk);
                } else {
                    self.move_on(LifecycleEvent::StopRequested);
                    effects = self.begin_end(Cause::StopCommand, None, false);
                }
            },
            SessionEvent::DeadlineElapsed => {
                self.move_on(LifecycleEvent::Timeout);
                self.timed_out = true;
                effects = self.begin_end(
                    Cause::Deadline,
                    Some(Effect::Record(TraceKind::Timeout)),
                    true,
                );
            },
            SessionEvent::KillElapsed => {
                if self.controller_held {
                    self.phase = Phase::AwaitForce(ForceCause::KillElapsed);
                    effects.push(Effect::ForceStop);
                } else {
                    effects = self.end_by_force(
                        ForceCause::KillElapsed,
                        Some("backend controller was already released".to_owned()),
                    );
                }
            },
            SessionEvent::CleanupElapsed => {
                let message = join3(
                    "backend exit did not complete within the ",
                    self.kill_grace.text().as_str(),
                    " hard cleanup deadline",
                );
                self.push_error(message);
                self.move_on(LifecycleEvent::Fail);
                effects.push(self.published(self.timed_out));
                effects.push(Effect::Finish);
                self.phase = Phase::Abandoned;
            },
            SessionEvent::TermOutcome(outcome) => {
                if let Phase::AwaitTerm(cause) = self.phase {
                    match bounded_session_control("TERM", &outcome, self.kill_grace) {
                        None => {
                            self.phase = Phase::Selecting;
                            self.kill_armed = true;
                            self.deadline_armed = false;
                            effects.push(Effect::Record(TraceKind::GracefulStop));
                            effects.push(Effect::ArmKill);
                            Self::push_closing(&mut effects, cause, true);
                        },
                        Some(message) => {
                            self.push_error(message);
                            self.move_on(LifecycleEvent::Fail);
                            self.phase = Phase::AwaitForce(ForceCause::AfterTerm(cause));
                            if cause != Cause::StdinFailed {
                                effects.push(self.published(cause == Cause::Deadline));
                            }
                            effects.push(Effect::ForceStop);
                        },
                    }
                }
            },
            SessionEvent::ForceOutcome(outcome) => {
                if let Phase::AwaitForce(cause) = self.phase {
                    let error = bounded_session_control("force-stop", &outcome, self.kill_grace);
                    effects = self.end_by_force(cause, error);
                }
            },
        }
        proof {
            assert(self@ =~= expected.state);
            assert(effects@ =~= expected.effects);
        }
        effects
    }
}

} // verus!
