//! The life of a session, from its creation to its death.

use vstd::prelude::*;

use crate::text::join;

verus! {

#[derive(Debug, Clone, Copy, PartialEq, Eq, Structural)]
pub enum SessionState {
    Created,
    Preparing,
    Starting,
    Ready,
    Running,
    Stopping,
    TimedOut,
    Failed,
    Dead,
}

#[derive(Debug, Clone, Copy, PartialEq, Eq, Structural)]
pub enum LifecycleEvent {
    Prepare,
    Start,
    AgentReady,
    CommandStarted,
    CommandExited,
    StopRequested,
    Timeout,
    Fail,
    CleanupComplete,
}

#[derive(Debug, Clone, Copy, PartialEq, Eq, Structural)]
pub enum TerminationReason {
    Exited,
    Cancelled,
    TimedOut,
    Failed,
}

/// An event came in a state that it does not belong to.
#[derive(Debug, Clone, Copy, PartialEq, Eq, Structural)]
pub struct LifecycleError {
    pub state: SessionState,
    pub event: LifecycleEvent,
}

impl SessionState {
    pub open spec fn label_spec(self) -> Seq<char> {
        match self {
            SessionState::Created => "created"@,
            SessionState::Preparing => "preparing"@,
            SessionState::Starting => "starting"@,
            SessionState::Ready => "ready"@,
            SessionState::Running => "running"@,
            SessionState::Stopping => "stopping"@,
            SessionState::TimedOut => "timed_out"@,
            SessionState::Failed => "failed"@,
            SessionState::Dead => "dead"@,
        }
    }

    pub fn label(&self) -> (text: &'static str)
        ensures
            text@ == self.label_spec(),
    {
        match self {
            SessionState::Created => "created",
            SessionState::Preparing => "preparing",
            SessionState::Starting => "starting",
            SessionState::Ready => "ready",
            SessionState::Running => "running",
            SessionState::Stopping => "stopping",
            SessionState::TimedOut => "timed_out",
            SessionState::Failed => "failed",
            SessionState::Dead => "dead",
        }
    }
}

impl LifecycleError {
    pub open spec fn text_spec(self) -> Seq<char> {
        "the event does not belong to the state "@ + self.state.label_spec()
    }

    pub fn message(&self) -> (text: String)
        ensures
            text@ == self.text_spec(),
    {
        join("the event does not belong to the state ", self.state.label())
    }
}

#[derive(Debug, Clone, Copy, PartialEq, Eq, Structural)]
pub struct Lifecycle {
    pub state: SessionState,
    pub termination_reason: Option<TerminationReason>,
}

impl Lifecycle {
    /// Where an event leads, if it belongs to the state.  A failure overrides the reason of any
    /// earlier end; the completed cleanup keeps it.
    pub open spec fn after(self, event: LifecycleEvent) -> Option<Lifecycle> {
        match (self.state, event) {
            (SessionState::Created, LifecycleEvent::Prepare) => Some(
                Lifecycle { state: SessionState::Preparing, ..self },
            ),
            (SessionState::Preparing, LifecycleEvent::Start) => Some(
                Lifecycle { state: SessionState::Starting, ..self },
            ),
            (SessionState::Starting, LifecycleEvent::AgentReady) => Some(
                Lifecycle { state: SessionState::Ready, ..self },
            ),
            (SessionState::Ready, LifecycleEvent::CommandStarted) => Some(
                Lifecycle { state: SessionState::Running, ..self },
            ),
            (SessionState::Running, LifecycleEvent::CommandExited) => Some(
                Lifecycle {
                    state: SessionState::Stopping,
                    termination_reason: Some(TerminationReason::Exited),
                },
            ),
            (SessionState::Running, LifecycleEvent::StopRequested) => Some(
                Lifecycle {
                    state: SessionState::Stopping,
                    termination_reason: Some(TerminationReason::Cancelled),
                },
            ),
            (SessionState::Running, LifecycleEvent::Timeout) => Some(
                Lifecycle {
                    state: SessionState::TimedOut,
                    termination_reason: Some(TerminationReason::TimedOut),
                },
            ),
            (SessionState::Dead, _) => None,
            (SessionState::Failed, LifecycleEvent::Fail) => None,
            (_, LifecycleEvent::Fail) => Some(
                Lifecycle {
                    state: SessionState::Failed,
                    termination_reason: Some(TerminationReason::Failed),
                },
            ),
            (SessionState::Stopping, LifecycleEvent::CleanupComplete)
            | (SessionState::TimedOut, LifecycleEvent::CleanupComplete)
            | (SessionState::Failed, LifecycleEvent::CleanupComplete) => Some(
                Lifecycle { state: SessionState::Dead, ..self },
            ),
            _ => None,
        }
    }

    /// A session that nothing has happened to.
    pub fn new() -> (lifecycle: Lifecycle)
        ensures
            lifecycle.state == SessionState::Created,
            lifecycle.termination_reason is None,
    {
        Lifecycle { state: SessionState::Created, termination_reason: None }
    }

    /// Applies an event; one that does not belong to the state changes nothing.
    pub fn apply(&mut self, event: LifecycleEvent) -> (applied: Result<(), LifecycleError>)
        ensures
            match applied {
                Ok(()) => old(self).after(event) == Some(*final(self)),
                Err(error) => {
                    &&& old(self).after(event) is None
                    &&& *final(self) == *old(self)
                    &&& error == (LifecycleError { state: old(self).state, event })
                },
            },
    {
        let next: Option<(SessionState, Option<TerminationReason>)> = match (self.state, event) {
            (SessionState::Created, LifecycleEvent::Prepare) => Some(
                (SessionState::Preparing, self.termination_reason),
            ),
            (SessionState::Preparing, LifecycleEvent::Start) => Some(
                (SessionState::Starting, self.termination_reason),
            ),
            (SessionState::Starting, LifecycleEvent::AgentReady) => Some(
                (SessionState::Ready, self.termination_reason),
            ),
            (SessionState::Ready, LifecycleEvent::CommandStarted) => Some(
                (SessionState::Running, self.termination_reason),
            ),
            (SessionState::Running, LifecycleEvent::CommandExited) => Some(
                (SessionState::Stopping, Some(TerminationReason::Exited)),
            ),
            (SessionState::Running, LifecycleEvent::StopRequested) => Some(
                (SessionState::Stopping, Some(TerminationReason::Cancelled)),
            ),
            (SessionState::Running, LifecycleEvent::Timeout) => Some(
                (SessionState::TimedOut, Some(TerminationReason::TimedOut)),
            ),
            (SessionState::Dead, _) => None,
            (SessionState::Failed, LifecycleEvent::Fail) => None,
            (_, LifecycleEvent::Fail) => Some(
                (SessionState::Failed, Some(TerminationReason::Failed)),
            ),
            (SessionState::Stopping, LifecycleEvent::CleanupComplete)
            | (SessionState::TimedOut, LifecycleEvent::CleanupComplete)
            | (SessionState::Failed, LifecycleEvent::CleanupComplete) => Some(
                (SessionState::Dead, self.termination_reason),
            ),
            _ => None,
        };
        match next {
            Some((state, termination_reason)) => {
                self.state = state;
                self.termination_reason = termination_reason;
                Ok(())
            },
            None => Err(LifecycleError { state: self.state, event }),
        }
    }
}

/// Nothing leads out of death.
pub proof fn law_dead_is_final(lifecycle: Lifecycle, event: LifecycleEvent)
    requires
        lifecycle.state == SessionState::Dead,
    ensures
        lifecycle.after(event) is None,
{
}

/// A session is dead only once its cleanup is complete, and then for the reason it ended for.
pub proof fn law_death_takes_cleanup(lifecycle: Lifecycle, event: LifecycleEvent)
    requires
        lifecycle.after(event) matches Some(next) && next.state == SessionState::Dead,
    ensures
        event == LifecycleEvent::CleanupComplete,
        lifecycle.after(event)->0.termination_reason == lifecycle.termination_reason,
{
}

} // verus!
