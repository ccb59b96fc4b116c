//! The last part of a session: its pumps are waited for, and only then is its end published.

use vstd::prelude::*;

use crate::lifecycle::{Lifecycle, LifecycleEvent, SessionState};
use crate::session::finish::{
    flatten_session_io_task, IoFailureView, SessionEnd, SessionIoFailure, SessionIoStream, TaskEnd,
};
use crate::session::handle::CompletionView;
use crate::session::{DriverView, Effect, EventView, Phase, SessionDriver};

verus! {

/// A task that carries input or output of a session.
#[derive(Debug)]
pub enum Pump {
    /// There is none, or its end was seen before.
    Absent,
    Running,
    Ended(TaskEnd),
}

/// A session whose events are over.
pub struct Teardown {
    driver: SessionDriver,
    stdin: Pump,
    stdout: Pump,
    stderr: Pump,
}

#[verifier::ext_equal]
pub struct TeardownView {
    pub driver: DriverView,
    pub stdin: Pump,
    pub stdout: Pump,
    pub stderr: Pump,
}

impl View for Teardown {
    type V = TeardownView;

    closed spec fn view(&self) -> TeardownView {
        TeardownView {
            driver: self.driver@,
            stdin: self.stdin,
            stdout: self.stdout,
            stderr: self.stderr,
        }
    }
}

/// The failure of a pump, as a list of none or one.
pub open spec fn failures_of(stream: SessionIoStream, pump: Pump, deadline: int) -> Seq<
    IoFailureView,
> {
    match pump {
        Pump::Ended(end) => match crate::session::finish::failure_of(stream, end, deadline) {
            Some(failure) => seq![failure],
            None => Seq::empty(),
        },
        _ => Seq::empty(),
    }
}

impl TeardownView {
    pub open spec fn wf(self) -> bool {
        &&& self.driver.wf()
        &&& self.driver.phase == Phase::Exited || self.driver.phase == Phase::Abandoned
    }

    pub open spec fn pump(self, stream: SessionIoStream) -> Pump {
        match stream {
            SessionIoStream::Stdin => self.stdin,
            SessionIoStream::Stdout => self.stdout,
            SessionIoStream::Stderr => self.stderr,
        }
    }

    /// Whether the end of a pump is waited for: the output's are once the input's has come.
    pub open spec fn waits_for(self, stream: SessionIoStream) -> bool {
        self.pump(stream) is Running && (stream == SessionIoStream::Stdin || !(self.stdin is Running))
    }

    /// Whether no pump is left.
    pub open spec fn is_over(self) -> bool {
        !(self.stdin is Running) && !(self.stdout is Running) && !(self.stderr is Running)
    }

    pub open spec fn ended(self, stream: SessionIoStream, end: TaskEnd) -> TeardownView {
        match stream {
            SessionIoStream::Stdin => TeardownView { stdin: Pump::Ended(end), ..self },
            SessionIoStream::Stdout => TeardownView { stdout: Pump::Ended(end), ..self },
            SessionIoStream::Stderr => TeardownView { stderr: Pump::Ended(end), ..self },
        }
    }

    /// The failures of all pumps.
    pub open spec fn failures(self) -> Seq<IoFailureView> {
        failures_of(SessionIoStream::Stdin, self.stdin, self.driver.kill_grace) + failures_of(
            SessionIoStream::Stdout,
            self.stdout,
            self.driver.kill_grace,
        ) + failures_of(SessionIoStream::Stderr, self.stderr, self.driver.kill_grace)
    }

    /// Whether the end of the session is a failure.
    pub open spec fn has_failed(self) -> bool {
        self.driver.errors.len() + self.failures().len() > 0
    }

    pub open spec fn settled(self) -> Lifecycle {
        crate::session::finish::settled_lifecycle(self.driver, self.failures())
    }

    /// The lifecycles that are published at the end, in their order; none while a pump runs.
    pub open spec fn publications(self) -> Seq<Lifecycle> {
        if !self.is_over() {
            Seq::empty()
        } else {
            (if self.has_failed() {
                seq![self.settled()]
            } else {
                Seq::empty()
            }) + (match self.settled().after(LifecycleEvent::CleanupComplete) {
                Some(dead) if self.driver.phase == Phase::Exited => seq![dead],
                _ => Seq::empty(),
            })
        }
    }
}

impl Pump {
    fn is_running(&self) -> (running: bool)
        ensures
            running == (*self is Running),
    {
        matches!(self, Pump::Running)
    }
}

fn note_failure(
    failures: &mut Vec<SessionIoFailure>,
    stream: SessionIoStream,
    pump: Pump,
    deadline: crate::time::Duration,
)
    ensures
        crate::session::finish::failure_views(final(failures)@)
            == crate::session::finish::failure_views(old(failures)@) + failures_of(
            stream,
            pump,
            deadline@,
        ),
{
    let ghost before = failures@;
    match pump {
        Pump::Ended(end) => match flatten_session_io_task(stream, end, deadline) {
            Some(failure) => {
                let ghost found = failure@;
                failures.push(failure);
                assert(crate::session::finish::failure_views(failures@)
                    =~= crate::session::finish::failure_views(before) + seq![found]);
            },
            None => {
                assert(crate::session::finish::failure_views(failures@)
                    =~= crate::session::finish::failure_views(before) + Seq::empty());
            },
        },
        _ => {
            assert(crate::session::finish::failure_views(failures@)
                =~= crate::session::finish::failure_views(before) + Seq::empty());
        },
    }
}

impl Teardown {
    pub open spec fn wf(self) -> bool {
        self@.wf()
    }

    /// Begins the end of a session whose events are over.
    pub fn begin(driver: SessionDriver, has_stderr: bool) -> (teardown: Teardown)
        requires
            driver.wf(),
            driver@.phase == Phase::Exited || driver@.phase == Phase::Abandoned,
        ensures
            teardown.wf(),
            teardown@ == (TeardownView {
                driver: driver@,
                stdin: if driver@.stdin_open {
                    Pump::Running
                } else {
                    Pump::Absent
                },
                stdout: Pump::Running,
                stderr: if has_stderr {
                    Pump::Running
                } else {
                    Pump::Absent
                },
            }),
    {
        let stdin = if driver.is_stdin_open() {
            Pump::Running
        } else {
            Pump::Absent
        };
        let stderr = if has_stderr {
            Pump::Running
        } else {
            Pump::Absent
        };
        Teardown { driver, stdin, stdout: Pump::Running, stderr }
    }

    /// Whether the end of a pump is waited for.
    pub fn waits_for(&self, stream: SessionIoStream) -> (waits: bool)
        ensures
            waits == self@.waits_for(stream),
    {
        match stream {
            SessionIoStream::Stdin => self.stdin.is_running(),
            SessionIoStream::Stdout => self.stdout.is_running() && !self.stdin.is_running(),
            SessionIoStream::Stderr => self.stderr.is_running() && !self.stdin.is_running(),
        }
    }

    /// Takes the end of a pump.
    pub fn end(&mut self, stream: SessionIoStream, end: TaskEnd)
        requires
            old(self)@.waits_for(stream),
        ensures
            final(self)@ == old(self)@.ended(stream, end),
    {
        match stream {
            SessionIoStream::Stdin => {
                self.stdin = Pump::Ended(end);
            },
            SessionIoStream::Stdout => {
                self.stdout = Pump::Ended(end);
            },
            SessionIoStream::Stderr => {
                self.stderr = Pump::Ended(end);
            },
        }
        assert(self@ =~= old(self)@.ended(stream, end));
    }

    /// Whether no pump is left.
    pub fn is_over(&self) -> (over: bool)
        ensures
            over == self@.is_over(),
    {
        !self.stdin.is_running() && !self.stdout.is_running() && !self.stderr.is_running()
    }

    /// Ends the session: a failure is published where there is one, and then its death where the
    /// exit of its command is known.
    pub fn finish(self) -> (end: SessionEnd)
        requires
            self.wf(),
            self@.is_over(),
        ensures
            end.settled == self@.settled(),
            end.publish_failure == self@.has_failed(),
            end.timed_out == self@.driver.timed_out,
            end.stage_failed == (self@.driver.timed_out || self@.has_failed()),
            crate::text::strings(end.messages@) == self@.driver.errors
                + crate::session::finish::failure_texts(self@.failures()),
            crate::session::finish::failure_views(end.io_failures@) == self@.failures(),
            self@.publications() == end.publications(),
            end.dead is Some == (self@.driver.phase == Phase::Exited),
    {
        let deadline = self.driver.kill_grace();
        let mut failures: Vec<SessionIoFailure> = Vec::new();
        assert(crate::session::finish::failure_views(failures@) =~= Seq::empty());
        note_failure(&mut failures, SessionIoStream::Stdin, self.stdin, deadline);
        note_failure(&mut failures, SessionIoStream::Stdout, self.stdout, deadline);
        note_failure(&mut failures, SessionIoStream::Stderr, self.stderr, deadline);
        assert(crate::session::finish::failure_views(failures@) =~= self@.failures());
        assert(crate::session::finish::failure_views(failures@).len() == failures@.len());
        self.driver.finish(failures)
    }
}

/// A driver after some events, and all that it asked for on the way.
pub open spec fn driven(state: DriverView, events: Seq<EventView>) -> (DriverView, Seq<Effect>)
    decreases events.len(),
{
    if events.len() == 0 {
        (state, Seq::empty())
    } else {
        let before = driven(state, events.drop_last());
        let step = crate::session::driver_step(before.0, events.last());
        (step.state, before.1 + step.effects)
    }
}

/// Whether each of some events can come when it does.
pub open spec fn can_come(state: DriverView, events: Seq<EventView>) -> bool
    decreases events.len(),
{
    events.len() > 0 ==> can_come(state, events.drop_last()) && driven(
        state,
        events.drop_last(),
    ).0.expects(events.last())
}

pub open spec fn publishes_death(effect: Effect) -> bool {
    effect matches Effect::Publish { state, .. } && state == SessionState::Dead
}

/// No event of a session leads to the publication of its death: that comes from its end alone.
pub proof fn law_no_event_publishes_death(state: DriverView, event: EventView)
    requires
        state.wf(),
        state.expects(event),
    ensures
        forall|i: int|
            0 <= i < crate::session::driver_step(state, event).effects.len() ==> !publishes_death(
                #[trigger] crate::session::driver_step(state, event).effects[i],
            ),
        crate::session::driver_step(state, event).state.phase == Phase::Exited ==> event is ExitKnown,
{
    crate::session::law_driver_stays_well_formed(state, event);
}

/// Whatever happens to a session while its events come, its death is not published, and its
/// command counts as exited only where the exit was seen.
pub proof fn law_events_never_publish_death(state: DriverView, events: Seq<EventView>)
    requires
        state.wf(),
        state.phase == Phase::Selecting,
        can_come(state, events),
    ensures
        driven(state, events).0.wf(),
        forall|i: int|
            0 <= i < driven(state, events).1.len() ==> !publishes_death(
                #[trigger] driven(state, events).1[i],
            ),
        driven(state, events).0.phase == Phase::Exited ==> events.contains(EventView::ExitKnown),
    decreases events.len(),
{
    if events.len() > 0 {
        let earlier = events.drop_last();
        let before = driven(state, earlier);
        law_events_never_publish_death(state, earlier);
        law_no_event_publishes_death(before.0, events.last());
        crate::session::law_driver_stays_well_formed(before.0, events.last());
        let step = crate::session::driver_step(before.0, events.last());
        let all = driven(state, events).1;
        assert forall|i: int| 0 <= i < all.len() implies !publishes_death(#[trigger] all[i]) by {
            if i < before.1.len() {
                assert(all[i] == before.1[i]);
            } else {
                assert(all[i] == step.effects[i - before.1.len()]);
            }
        }
        if step.state.phase == Phase::Exited {
            assert(events[events.len() - 1] == EventView::ExitKnown);
        }
    }
}

/// A session is published as dead only once the exit of its command is known and every pump has
/// ended, and where both hold it is.
pub proof fn law_death_needs_exit_and_pumps(teardown: TeardownView)
    requires
        teardown.wf(),
    ensures
        (exists|i: int|
            0 <= i < teardown.publications().len() && (
            #[trigger] teardown.publications()[i]).state == SessionState::Dead) <==> (
        teardown.driver.phase == Phase::Exited && teardown.is_over()),
{
    crate::session::finish::law_dead_needs_known_exit(teardown.driver, teardown.failures());
    let published = teardown.publications();
    if teardown.driver.phase == Phase::Exited && teardown.is_over() {
        assert(published[published.len() - 1].state == SessionState::Dead);
    }
    assert(teardown.settled().state != SessionState::Dead);
}

/// A session whose exit is never seen is never published as dead: the last that is published of it
/// is that it failed, and whoever waits for its end is told that it is closed.
pub proof fn law_session_without_exit_is_closed(
    start: DriverView,
    events: Seq<EventView>,
    teardown: TeardownView,
    first_failure: Option<IoFailureView>,
)
    requires
        start.wf(),
        start.phase == Phase::Selecting,
        can_come(start, events),
        !events.contains(EventView::ExitKnown),
        teardown.wf(),
        teardown.is_over(),
        teardown.driver == driven(start, events).0,
    ensures
        forall|i: int|
            0 <= i < driven(start, events).1.len() ==> !publishes_death(
                #[trigger] driven(start, events).1[i],
            ),
        teardown.publications() == seq![teardown.settled()],
        teardown.settled().state == SessionState::Failed,
        crate::session::handle::completion_of(
            teardown.settled().state,
            first_failure,
            true,
        ) == CompletionView::Closed,
{
    law_events_never_publish_death(start, events);
    lemma_given_up_has_errors(start, events);
    assert(teardown.publications() =~= seq![teardown.settled()]);
}

/// A command that is given up left an error behind.
proof fn lemma_given_up_has_errors(state: DriverView, events: Seq<EventView>)
    requires
        state.wf(),
        state.phase == Phase::Selecting,
        can_come(state, events),
    ensures
        driven(state, events).0.phase == Phase::Abandoned ==> driven(state, events).0.errors.len()
            > 0,
{
    if events.len() > 0 {
        law_events_never_publish_death(state, events.drop_last());
    }
}

} // verus!
