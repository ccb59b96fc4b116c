//! The rules of the handle by which a session is used.

use vstd::prelude::*;
use vstd::string::*;

use crate::backend::{BackendError, BackendErrorView};
use crate::budget::{RunBudget, RunStage, StageEvent, StageEventKind};
use crate::lifecycle::{Lifecycle, LifecycleError, LifecycleEvent, SessionState};
use crate::session::finish::{IoFailureView, SessionIoFailure, SessionStatus, StatusView};
use crate::session::{MAX_SESSION_OUTPUT_READ_BYTES, STDIN_QUEUE_BYTES};
use crate::text::{decimal, join, join3};
use crate::time::Duration;
use crate::trace::{TraceEvent, TraceKind};

verus! {

#[derive(Debug)]
pub enum SessionError {
    Backend(BackendError),
    Io(SessionIoFailure),
    /// Output that is no longer, or not yet, there.
    Output(String),
    Lifecycle(LifecycleError),
    SessionClosed,
    Control(String),
    StdinWriteTooLarge { requested: usize, maximum: usize },
    OutputReadTooLarge { requested: usize, maximum: usize },
}

pub enum SessionErrorView {
    Backend(BackendErrorView),
    Io(IoFailureView),
    Output(Seq<char>),
    Lifecycle(LifecycleError),
    SessionClosed,
    Control(Seq<char>),
    StdinWriteTooLarge { requested: usize, maximum: usize },
    OutputReadTooLarge { requested: usize, maximum: usize },
}

impl View for SessionError {
    type V = SessionErrorView;

    open spec fn view(&self) -> SessionErrorView {
        match *self {
            SessionError::Backend(error) => SessionErrorView::Backend(error@),
            SessionError::Io(failure) => SessionErrorView::Io(failure@),
            SessionError::Output(text) => SessionErrorView::Output(text@),
            SessionError::Lifecycle(error) => SessionErrorView::Lifecycle(error),
            SessionError::SessionClosed => SessionErrorView::SessionClosed,
            SessionError::Control(text) => SessionErrorView::Control(text@),
            SessionError::StdinWriteTooLarge { requested, maximum } => {
                SessionErrorView::StdinWriteTooLarge { requested, maximum }
            },
            SessionError::OutputReadTooLarge { requested, maximum } => {
                SessionErrorView::OutputReadTooLarge { requested, maximum }
            },
        }
    }
}

impl SessionErrorView {
    pub open spec fn text(self) -> Seq<char> {
        match self {
            SessionErrorView::Backend(error) => error.text(),
            SessionErrorView::Io(failure) => failure.text(),
            SessionErrorView::Output(text) => text,
            SessionErrorView::Lifecycle(error) => error.text_spec(),
            SessionErrorView::SessionClosed => "session is no longer available"@,
            SessionErrorView::Control(text) => "session control failed: "@ + text,
            SessionErrorView::StdinWriteTooLarge { requested, maximum } => {
                "stdin write is "@ + crate::text::decimal_text(requested as nat) + (
                " bytes, exceeding the "@ + crate::text::decimal_text(maximum as nat)
                    + "-byte queue limit"@)
            },
            SessionErrorView::OutputReadTooLarge { requested, maximum } => {
                "output read is "@ + crate::text::decimal_text(requested as nat) + (
                " bytes, exceeding the "@ + crate::text::decimal_text(maximum as nat)
                    + "-byte request limit"@)
            },
        }
    }
}

impl SessionError {
    pub fn message(&self) -> (text: String)
        ensures
            text@ == self@.text(),
    {
        match self {
            SessionError::Backend(error) => error.message(),
            SessionError::Io(failure) => failure.text(),
            SessionError::Output(text) => text.as_str().to_owned(),
            SessionError::Lifecycle(error) => error.message(),
            SessionError::SessionClosed => "session is no longer available".to_owned(),
            SessionError::Control(text) => join("session control failed: ", text.as_str()),
            SessionError::StdinWriteTooLarge { requested, maximum } => join3(
                "stdin write is ",
                decimal(*requested as u64).as_str(),
                join3(
                    " bytes, exceeding the ",
                    decimal(*maximum as u64).as_str(),
                    "-byte queue limit",
                ).as_str(),
            ),
            SessionError::OutputReadTooLarge { requested, maximum } => join3(
                "output read is ",
                decimal(*requested as u64).as_str(),
                join3(
                    " bytes, exceeding the ",
                    decimal(*maximum as u64).as_str(),
                    "-byte request limit",
                ).as_str(),
            ),
        }
    }
}

/// Whether a write fits the queue: the number of bytes to reserve in it.
pub fn check_stdin_write(length: usize) -> (checked: Result<u32, SessionError>)
    ensures
        match checked {
            Ok(permits) => length <= STDIN_QUEUE_BYTES && permits == length,
            Err(error) => length > STDIN_QUEUE_BYTES && error@
                == (SessionErrorView::StdinWriteTooLarge {
                requested: length,
                maximum: STDIN_QUEUE_BYTES,
            }),
        },
{
    if length > STDIN_QUEUE_BYTES {
        return Err(
            SessionError::StdinWriteTooLarge { requested: length, maximum: STDIN_QUEUE_BYTES },
        );
    }
    Ok(length as u32)
}

/// Whether a read is within the limit of a single request.
pub fn check_output_read(max_bytes: usize) -> (checked: Result<(), SessionError>)
    ensures
        match checked {
            Ok(()) => max_bytes <= MAX_SESSION_OUTPUT_READ_BYTES,
            Err(error) => max_bytes > MAX_SESSION_OUTPUT_READ_BYTES && error@
                == (SessionErrorView::OutputReadTooLarge {
                requested: max_bytes,
                maximum: MAX_SESSION_OUTPUT_READ_BYTES,
            }),
        },
{
    if max_bytes > MAX_SESSION_OUTPUT_READ_BYTES {
        return Err(
            SessionError::OutputReadTooLarge {
                requested: max_bytes,
                maximum: MAX_SESSION_OUTPUT_READ_BYTES,
            },
        );
    }
    Ok(())
}

/// Whether a stop has nothing left to do.
pub open spec fn stop_is_settled(state: SessionState) -> bool {
    ||| state == SessionState::Stopping
    ||| state == SessionState::Failed
    ||| state == SessionState::TimedOut
    ||| state == SessionState::Dead
}

/// Whether a stop has nothing left to do.
pub fn already_stopping(state: SessionState) -> (settled: bool)
    ensures
        settled == stop_is_settled(state),
{
    matches!(
        state,
        SessionState::Stopping | SessionState::Failed | SessionState::TimedOut | SessionState::Dead
    )
}

/// What someone who waits for the end of a session gets.
pub enum Completion {
    /// It is not over yet.
    Pending(SessionStatus),
    Finished(SessionStatus),
    Failed(SessionIoFailure),
    /// Nothing more is published of it, and it did not die.
    Closed,
}

pub enum CompletionView {
    Pending,
    Finished,
    Failed(IoFailureView),
    Closed,
}

/// What a state means to someone who waits, with the first failure of the session's pumps;
/// `closed` says that no other state will follow.
pub open spec fn completion_of(
    state: SessionState,
    first_failure: Option<IoFailureView>,
    closed: bool,
) -> CompletionView {
    if state == SessionState::Dead {
        match first_failure {
            Some(failure) => CompletionView::Failed(failure),
            None => CompletionView::Finished,
        }
    } else if closed {
        CompletionView::Closed
    } else {
        CompletionView::Pending
    }
}

/// Looks at a status, and at the first failure of the session's pumps.
pub fn completion(
    status: SessionStatus,
    first_failure: Option<SessionIoFailure>,
    closed: bool,
) -> (completion: Completion)
    ensures
        ({
            let expected = completion_of(
                status.state,
                match first_failure {
                    Some(failure) => Some(failure@),
                    None => None,
                },
                closed,
            );
            match completion {
                Completion::Pending(same) => expected is Pending && same == status,
                Completion::Finished(same) => expected is Finished && same == status,
                Completion::Failed(failure) => expected is Failed && first_failure == Some(failure),
                Completion::Closed => expected is Closed,
            }
        }),
{
    if status.state != SessionState::Dead {
        if closed {
            return Completion::Closed;
        }
        return Completion::Pending(status);
    }
    match first_failure {
        Some(failure) => Completion::Failed(failure),
        None => Completion::Finished(status),
    }
}

/// What a wait for the end of a session comes to; `None` as long as it goes on.
pub open spec fn waited_of(
    status: StatusView,
    first_failure: Option<IoFailureView>,
    closed: bool,
) -> Option<Result<StatusView, SessionErrorView>> {
    match completion_of(status.state, first_failure, closed) {
        CompletionView::Pending => None,
        CompletionView::Finished => Some(Ok(status)),
        CompletionView::Failed(failure) => Some(Err(SessionErrorView::Io(failure))),
        CompletionView::Closed => Some(Err(SessionErrorView::SessionClosed)),
    }
}

pub open spec fn waited_view(waited: Result<SessionStatus, SessionError>) -> Result<
    StatusView,
    SessionErrorView,
> {
    match waited {
        Ok(status) => Ok(status@),
        Err(error) => Err(error@),
    }
}

/// Looks whether a wait for the end of a session is over.
pub fn wait_result(
    status: SessionStatus,
    first_failure: Option<SessionIoFailure>,
    closed: bool,
) -> (waited: Option<Result<SessionStatus, SessionError>>)
    ensures
        ({
            let expected = waited_of(
                status@,
                match first_failure {
                    Some(failure) => Some(failure@),
                    None => None,
                },
                closed,
            );
            match waited {
                Some(result) => expected == Some(waited_view(result)),
                None => expected is None,
            }
        }),
{
    match completion(status, first_failure, closed) {
        Completion::Pending(_) => None,
        Completion::Finished(same) => Some(Ok(same)),
        Completion::Failed(failure) => Some(Err(SessionError::Io(failure))),
        Completion::Closed => Some(Err(SessionError::SessionClosed)),
    }
}

/// The messages of a session's failures, joined by semicolons; `None` where there is none.
pub open spec fn joined(messages: Seq<Seq<char>>) -> Option<Seq<char>>
    decreases messages.len(),
{
    if messages.len() == 0 {
        None
    } else {
        match joined(messages.drop_last()) {
            None => Some(messages.last()),
            Some(earlier) => Some(earlier + "; "@ + messages.last()),
        }
    }
}

/// Joins the messages of a session's failures.
pub fn terminal_error(messages: &Vec<String>) -> (text: Option<String>)
    ensures
        crate::text::text_of(text) == joined(crate::text::strings(messages@)),
{
    let ghost views = crate::text::strings(messages@);
    let mut text: Option<String> = None;
    let mut i: usize = 0;
    assert(views.subrange(0, 0) =~= Seq::empty());
    while i < messages.len()
        invariant
            i <= messages@.len(),
            views == crate::text::strings(messages@),
            crate::text::text_of(text) == joined(views.subrange(0, i as int)),
        decreases messages@.len() - i,
    {
        proof {
            let longer = views.subrange(0, i + 1);
            assert(longer.drop_last() =~= views.subrange(0, i as int));
            assert(longer.last() == messages@[i as int]@);
        }
        text =
        match text {
            None => Some(messages[i].as_str().to_owned()),
            Some(earlier) => Some(join3(earlier.as_str(), "; ", messages[i].as_str())),
        };
        i += 1;
    }
    assert(views.subrange(0, i as int) =~= views);
    text
}

/// The trace of a session, without its stages.
#[derive(Debug)]
pub struct TraceRecorder {
    pub started: Duration,
    pub events: Vec<TraceEvent>,
}

impl TraceRecorder {
    pub fn new(started: Duration) -> (recorder: TraceRecorder)
        ensures
            recorder.started == started,
            recorder.events@.len() == 0,
    {
        TraceRecorder { started, events: Vec::new() }
    }

    /// Records an event that happens now.
    pub fn push(&mut self, kind: TraceKind, now: Duration)
        ensures
            final(self).started == old(self).started,
            final(self).events@ == old(self).events@.push(
                TraceEvent {
                    sequence: old(self).events@.len() as u64,
                    elapsed_micros: crate::budget::micros_spec(
                        crate::budget::elapsed_spec(old(self).started@, now@),
                    ),
                    kind,
                    stage: None,
                },
            ),
    {
        let elapsed_micros: u64 = crate::budget::duration_micros(now.saturating_sub(self.started));
        self.push_at(kind, elapsed_micros);
    }

    /// Records an event at a given time.
    pub fn push_at(&mut self, kind: TraceKind, elapsed_micros: u64)
        ensures
            final(self).started == old(self).started,
            final(self).events@ == old(self).events@.push(
                TraceEvent {
                    sequence: old(self).events@.len() as u64,
                    elapsed_micros,
                    kind,
                    stage: None,
                },
            ),
    {
        let sequence: u64 = self.events.len() as u64;
        self.events.push(TraceEvent { sequence, elapsed_micros, kind, stage: None });
    }
}

/// The event of a trace that a stage's event becomes.
pub open spec fn stage_trace(event: StageEvent) -> TraceEvent {
    TraceEvent {
        sequence: 0,
        elapsed_micros: event.elapsed_micros,
        kind: match event.kind {
            StageEventKind::Started => TraceKind::StageStarted,
            StageEventKind::Completed => TraceKind::StageCompleted,
            StageEventKind::Failed => TraceKind::StageFailed,
        },
        stage: Some(event.stage),
    }
}

/// Where an event belongs in a trace that is in order: behind all that are not later.
pub open spec fn place_of(events: Seq<TraceEvent>, elapsed: u64) -> int
    decreases events.len(),
{
    if events.len() == 0 || events.last().elapsed_micros <= elapsed {
        events.len() as int
    } else {
        place_of(events.drop_last(), elapsed)
    }
}

/// Events in the order of their times; of two at the same time, the one that was listed first
/// comes first.
pub open spec fn in_order(events: Seq<TraceEvent>) -> Seq<TraceEvent>
    decreases events.len(),
{
    if events.len() == 0 {
        events
    } else {
        let earlier = in_order(events.drop_last());
        earlier.insert(place_of(earlier, events.last().elapsed_micros), events.last())
    }
}

/// Events with their positions as sequence numbers.
pub open spec fn numbered(events: Seq<TraceEvent>) -> Seq<TraceEvent> {
    Seq::new(events.len(), |i: int| TraceEvent { sequence: i as u64, ..events[i] })
}

/// All events of a session and its stages.
pub open spec fn whole_trace(events: Seq<TraceEvent>, stages: Seq<StageEvent>) -> Seq<TraceEvent> {
    numbered(in_order(events + stages.map_values(|stage: StageEvent| stage_trace(stage))))
}

pub(crate) proof fn lemma_place_bounds(events: Seq<TraceEvent>, elapsed: u64)
    ensures
        0 <= place_of(events, elapsed) <= events.len(),
    decreases events.len(),
{
    if events.len() > 0 && events.last().elapsed_micros > elapsed {
        lemma_place_bounds(events.drop_last(), elapsed);
    }
}

fn insert_in_order(events: &mut Vec<TraceEvent>, event: TraceEvent)
    ensures
        final(events)@ == old(events)@.insert(
            place_of(old(events)@, event.elapsed_micros),
            event,
        ),
{
    let ghost before = events@;
    let mut place: usize = events.len();
    assert(before.subrange(0, place as int) =~= before);
    while place > 0 && events[place - 1].elapsed_micros > event.elapsed_micros
        invariant
            place <= events@.len(),
            events@ == before,
            place_of(before, event.elapsed_micros) == place_of(
                before.subrange(0, place as int),
                event.elapsed_micros,
            ),
        decreases place,
    {
        assert(before.subrange(0, place as int).drop_last() =~= before.subrange(0, place - 1));
        assert(before.subrange(0, place as int).last() == before[place - 1]);
        place -= 1;
    }
    proof {
        if place > 0 {
            assert(before.subrange(0, place as int).last() == before[place - 1]);
        }
        lemma_place_bounds(before, event.elapsed_micros);
    }
    events.insert(place, event);
}

/// Puts the events of a session and of its stages into one trace.
pub fn merge_trace(events: &Vec<TraceEvent>, stages: &Vec<StageEvent>) -> (trace: Vec<TraceEvent>)
    ensures
        trace@ == whole_trace(events@, stages@),
{
    let ghost stage_events = stages@.map_values(|stage: StageEvent| stage_trace(stage));
    let ghost all = events@ + stage_events;
    let mut sorted: Vec<TraceEvent> = Vec::new();
    let mut i: usize = 0;
    assert(all.subrange(0, 0) =~= Seq::empty());
    assert(sorted@ =~= in_order(all.subrange(0, 0)));
    while i < events.len()
        invariant
            i <= events@.len(),
            all == events@ + stage_events,
            sorted@ == in_order(all.subrange(0, i as int)),
        decreases events@.len() - i,
    {
        proof {
            let longer = all.subrange(0, i + 1);
            assert(longer.drop_last() =~= all.subrange(0, i as int));
            assert(longer.last() == events@[i as int]);
        }
        insert_in_order(&mut sorted, events[i]);
        i += 1;
    }
    let mut j: usize = 0;
    while j < stages.len()
        invariant
            j <= stages@.len(),
            stage_events == stages@.map_values(|stage: StageEvent| stage_trace(stage)),
            all == events@ + stage_events,
            sorted@ == in_order(all.subrange(0, events@.len() + j)),
        decreases stages@.len() - j,
    {
        let event: StageEvent = stages[j];
        let kind: TraceKind = match event.kind {
            StageEventKind::Started => TraceKind::StageStarted,
            StageEventKind::Completed => TraceKind::StageCompleted,
            StageEventKind::Failed => TraceKind::StageFailed,
        };
        let traced = TraceEvent {
            sequence: 0,
            elapsed_micros: event.elapsed_micros,
            kind,
            stage: Some(event.stage),
        };
        proof {
            let at = events@.len() + j;
            let longer = all.subrange(0, at + 1);
            assert(longer.drop_last() =~= all.subrange(0, at));
            assert(longer.last() == stage_events[j as int]);
            assert(longer.last() == traced);
        }
        insert_in_order(&mut sorted, traced);
        j += 1;
    }
    assert(all.subrange(0, events@.len() + j) =~= all);
    let ghost ordered = sorted@;
    let mut trace: Vec<TraceEvent> = Vec::new();
    let mut k: usize = 0;
    while k < sorted.len()
        invariant
            k <= sorted@.len(),
            sorted@ == ordered,
            trace@ == numbered(ordered).subrange(0, k as int),
        decreases sorted@.len() - k,
    {
        let event: TraceEvent = sorted[k];
        trace.push(
            TraceEvent {
                sequence: k as u64,
                elapsed_micros: event.elapsed_micros,
                kind: event.kind,
                stage: event.stage,
            },
        );
        k += 1;
        assert(trace@ =~= numbered(ordered).subrange(0, k as int));
    }
    assert(trace@ =~= numbered(ordered));
    trace
}

pub(crate) proof fn lemma_insert_keeps_order(events: Seq<TraceEvent>, event: TraceEvent)
    requires
        forall|i: int, j: int|
            0 <= i <= j < events.len() ==> (#[trigger] events[i]).elapsed_micros <= (
            #[trigger] events[j]).elapsed_micros,
    ensures
        ({
            let place = place_of(events, event.elapsed_micros);
            &&& forall|i: int| 0 <= i < place ==> (#[trigger] events[i]).elapsed_micros
                <= event.elapsed_micros
            &&& forall|i: int|
                place <= i < events.len() ==> (#[trigger] events[i]).elapsed_micros
                    > event.elapsed_micros
        }),
    decreases events.len(),
{
    lemma_place_bounds(events, event.elapsed_micros);
    if events.len() > 0 && events.last().elapsed_micros > event.elapsed_micros {
        let shorter = events.drop_last();
        assert forall|i: int, j: int| 0 <= i <= j < shorter.len() implies (
        #[trigger] shorter[i]).elapsed_micros <= (#[trigger] shorter[j]).elapsed_micros by {
            assert(shorter[i] == events[i] && shorter[j] == events[j]);
        }
        lemma_insert_keeps_order(shorter, event);
        lemma_place_bounds(shorter, event.elapsed_micros);
        assert forall|i: int| 0 <= i < place_of(events, event.elapsed_micros) implies (
        #[trigger] events[i]).elapsed_micros <= event.elapsed_micros by {
            assert(shorter[i] == events[i]);
        }
        assert forall|i: int|
            place_of(events, event.elapsed_micros) <= i < events.len() implies (
        #[trigger] events[i]).elapsed_micros > event.elapsed_micros by {
            if i < shorter.len() {
                assert(shorter[i] == events[i]);
            }
        }
    } else if events.len() > 0 {
        assert forall|i: int| 0 <= i < events.len() implies (#[trigger] events[i]).elapsed_micros
            <= event.elapsed_micros by {
            assert(events[i].elapsed_micros <= events[events.len() - 1].elapsed_micros);
        }
    }
}

/// A trace is in the order of its times, and it holds as many events as went into it.
pub proof fn law_trace_is_in_order(events: Seq<TraceEvent>)
    ensures
        in_order(events).len() == events.len(),
        forall|i: int, j: int|
            0 <= i <= j < in_order(events).len() ==> (#[trigger] in_order(
                events,
            )[i]).elapsed_micros <= (#[trigger] in_order(events)[j]).elapsed_micros,
    decreases events.len(),
{
    if events.len() > 0 {
        law_trace_is_in_order(events.drop_last());
        let earlier = in_order(events.drop_last());
        let event = events.last();
        let place = place_of(earlier, event.elapsed_micros);
        lemma_place_bounds(earlier, event.elapsed_micros);
        lemma_insert_keeps_order(earlier, event);
        let whole = in_order(events);
        assert forall|i: int, j: int| 0 <= i <= j < whole.len() implies (
        #[trigger] whole[i]).elapsed_micros <= (#[trigger] whole[j]).elapsed_micros by {
            let a = if i < place {
                i
            } else {
                i - 1
            };
            let b = if j < place {
                j
            } else {
                j - 1
            };
            if i < place {
                assert(whole[i] == earlier[i]);
            } else if i > place {
                assert(whole[i] == earlier[i - 1]);
            }
            if j < place {
                assert(whole[j] == earlier[j]);
            } else if j > place {
                assert(whole[j] == earlier[j - 1]);
            }
        }
    }
}

/// A session on its way to a running command.
pub struct SessionStart {
    pub lifecycle: Lifecycle,
    pub recorder: TraceRecorder,
}

/// Begins a session: it is prepared and started, and its backend is about to be asked.
pub fn begin_start(started: Duration, now: Duration) -> (start: SessionStart)
    ensures
        start.lifecycle == (Lifecycle { state: SessionState::Starting, termination_reason: None }),
        start.recorder.started == started,
        start.recorder.events@.len() == 2,
        start.recorder.events@[0] == (TraceEvent {
            sequence: 0,
            elapsed_micros: 0,
            kind: TraceKind::PrepareStarted,
            stage: None,
        }),
        start.recorder.events@[1] == (TraceEvent {
            sequence: 1,
            elapsed_micros: crate::budget::micros_spec(
                crate::budget::elapsed_spec(started@, now@),
            ),
            kind: TraceKind::BackendSpawnStarted,
            stage: None,
        }),
{
    let mut lifecycle = Lifecycle::new();
    let mut recorder = TraceRecorder::new(started);
    let _ = lifecycle.apply(LifecycleEvent::Prepare);
    recorder.push_at(TraceKind::PrepareStarted, 0);
    let _ = lifecycle.apply(LifecycleEvent::Start);
    recorder.push(TraceKind::BackendSpawnStarted, now);
    SessionStart { lifecycle, recorder }
}

impl SessionStart {
    /// The backend could not give a sandbox: the session fails and is cleaned up at once.
    pub fn spawn_failed(self) -> (lifecycle: Lifecycle)
        requires
            self.lifecycle.state == SessionState::Starting,
        ensures
            lifecycle.state == SessionState::Dead,
            lifecycle.termination_reason == Some(crate::lifecycle::TerminationReason::Failed),
    {
        let mut lifecycle = self.lifecycle;
        let _ = lifecycle.apply(LifecycleEvent::Fail);
        let _ = lifecycle.apply(LifecycleEvent::CleanupComplete);
        lifecycle
    }

    /// The backend gave a sandbox, in which the command runs from now on.
    pub fn spawn_succeeded(self, now: Duration) -> (running: SessionStart)
        requires
            self.lifecycle.state == SessionState::Starting,
        ensures
            running.lifecycle == (Lifecycle { state: SessionState::Running, ..self.lifecycle }),
            running.recorder.started == self.recorder.started,
            ({
                let elapsed_micros = crate::budget::micros_spec(
                    crate::budget::elapsed_spec(self.recorder.started@, now@),
                );
                let before = self.recorder.events@;
                running.recorder.events@ == before.push(
                    TraceEvent {
                        sequence: before.len() as u64,
                        elapsed_micros,
                        kind: TraceKind::BackendSpawned,
                        stage: None,
                    },
                ).push(
                    TraceEvent {
                        sequence: (before.len() + 1) as u64,
                        elapsed_micros,
                        kind: TraceKind::CommandStarted,
                        stage: None,
                    },
                )
            }),
    {
        let mut lifecycle = self.lifecycle;
        let mut recorder = self.recorder;
        let _ = lifecycle.apply(LifecycleEvent::AgentReady);
        recorder.push(TraceKind::BackendSpawned, now);
        let _ = lifecycle.apply(LifecycleEvent::CommandStarted);
        recorder.push(TraceKind::CommandStarted, now);
        SessionStart { lifecycle, recorder }
    }
}

/// Begins the command stage: the time that the command may take, none of it where the deadline
/// has passed, and no limit where there is no deadline.
pub fn begin_command_stage(budget: &mut RunBudget, now: Duration) -> (timeout: Option<Duration>)
    requires
        old(budget).wf(),
    ensures
        final(budget).wf(),
        match timeout {
            None => old(budget)@.deadline is None && final(budget)@ == old(budget)@.with_event(
                StageEventKind::Started,
                RunStage::CommandRun,
                now@,
            ),
            Some(span) => old(budget)@.deadline is Some && if old(budget)@.is_over(now@) {
                &&& span@ == 0
                &&& final(budget)@ == old(budget)@.with_failure(RunStage::CommandRun).with_event(
                    StageEventKind::Started,
                    RunStage::CommandRun,
                    now@,
                )
            } else {
                &&& span@ == old(budget)@.deadline->0 - now@
                &&& final(budget)@ == old(budget)@.with_event(
                    StageEventKind::Started,
                    RunStage::CommandRun,
                    now@,
                )
            },
        },
{
    let timeout: Option<Duration> = match budget.remaining(RunStage::CommandRun, now) {
        Ok(left) => left,
        Err(_) => Some(Duration::zero()),
    };
    budget.begin_stage(RunStage::CommandRun, now);
    timeout
}

} // verus!
