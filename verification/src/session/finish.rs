//! The end of a session: what its I/O tasks left behind, and what is published of it.

use vstd::prelude::*;
use vstd::string::*;

use crate::budget::duration_micros;
use crate::lifecycle::{Lifecycle, LifecycleEvent, SessionState, TerminationReason};
use crate::session::{DriverView, Phase, SessionDriver};
use crate::text::join3;
use crate::time::Duration;

verus! {

#[derive(Debug, Clone, Copy, PartialEq, Eq, Structural)]
pub enum SessionIoStream {
    Stdin,
    Stdout,
    Stderr,
}

impl SessionIoStream {
    pub open spec fn label_spec(self) -> Seq<char> {
        match self {
            SessionIoStream::Stdin => "stdin"@,
            SessionIoStream::Stdout => "stdout"@,
            SessionIoStream::Stderr => "stderr"@,
        }
    }

    pub fn label(&self) -> (text: &'static str)
        ensures
            text@ == self.label_spec(),
    {
        match self {
            SessionIoStream::Stdin => "stdin",
            SessionIoStream::Stdout => "stdout",
            SessionIoStream::Stderr => "stderr",
        }
    }
}

#[derive(Debug, Clone, Copy, PartialEq, Eq, Structural)]
pub enum SessionIoFailureKind {
    Operation,
    Task,
    CleanupTimeout,
}

impl SessionIoFailureKind {
    pub open spec fn label_spec(self) -> Seq<char> {
        match self {
            SessionIoFailureKind::Operation => "I/O failed"@,
            SessionIoFailureKind::Task => "task failed"@,
            SessionIoFailureKind::CleanupTimeout => "cleanup timed out"@,
        }
    }

    pub fn label(&self) -> (text: &'static str)
        ensures
            text@ == self.label_spec(),
    {
        match self {
            SessionIoFailureKind::Operation => "I/O failed",
            SessionIoFailureKind::Task => "task failed",
            SessionIoFailureKind::CleanupTimeout => "cleanup timed out",
        }
    }
}

/// The kinds of I/O errors.
#[derive(Debug, Clone, Copy, PartialEq, Eq, Structural)]
pub enum IoErrorKind {
    NotFound,
    PermissionDenied,
    ConnectionRefused,
    ConnectionReset,
    HostUnreachable,
    NetworkUnreachable,
    ConnectionAborted,
    NotConnected,
    AddrInUse,
    AddrNotAvailable,
    NetworkDown,
    BrokenPipe,
    AlreadyExists,
    WouldBlock,
    NotADirectory,
    IsADirectory,
    DirectoryNotEmpty,
    ReadOnlyFilesystem,
    StaleNetworkFileHandle,
    InvalidInput,
    InvalidData,
    TimedOut,
    WriteZero,
    StorageFull,
    NotSeekable,
    QuotaExceeded,
    FileTooLarge,
    ResourceBusy,
    ExecutableFileBusy,
    Deadlock,
    CrossesDevices,
    TooManyLinks,
    InvalidFilename,
    ArgumentListTooLong,
    Interrupted,
    Unsupported,
    UnexpectedEof,
    OutOfMemory,
    Other,
    /// A kind that has no name of its own.
    Uncategorized,
}

#[derive(Debug)]
pub struct SessionIoFailure {
    pub stream: SessionIoStream,
    pub kind: SessionIoFailureKind,
    pub io_kind: Option<IoErrorKind>,
    pub message: String,
}

pub struct IoFailureView {
    pub stream: SessionIoStream,
    pub kind: SessionIoFailureKind,
    pub io_kind: Option<IoErrorKind>,
    pub message: Seq<char>,
}

impl View for SessionIoFailure {
    type V = IoFailureView;

    open spec fn view(&self) -> IoFailureView {
        IoFailureView {
            stream: self.stream,
            kind: self.kind,
            io_kind: self.io_kind,
            message: self.message@,
        }
    }
}

impl IoFailureView {
    pub open spec fn text(self) -> Seq<char> {
        self.stream.label_spec() + " pump "@ + (self.kind.label_spec() + ": "@ + self.message)
    }
}

impl SessionIoFailure {
    /// A pump whose reading or writing failed.
    pub fn operation(stream: SessionIoStream, io_kind: IoErrorKind, message: String) -> (failure:
        SessionIoFailure)
        ensures
            failure@ == (IoFailureView {
                stream,
                kind: SessionIoFailureKind::Operation,
                io_kind: Some(io_kind),
                message: message@,
            }),
    {
        SessionIoFailure {
            stream,
            kind: SessionIoFailureKind::Operation,
            io_kind: Some(io_kind),
            message,
        }
    }

    /// A pump whose task did not survive.
    pub fn task(stream: SessionIoStream, message: String) -> (failure: SessionIoFailure)
        ensures
            failure@ == (IoFailureView {
                stream,
                kind: SessionIoFailureKind::Task,
                io_kind: None,
                message: message@,
            }),
    {
        SessionIoFailure { stream, kind: SessionIoFailureKind::Task, io_kind: None, message }
    }

    /// A pump that did not stop in time.
    pub fn cleanup_timeout(stream: SessionIoStream, deadline: Duration) -> (failure:
        SessionIoFailure)
        ensures
            failure@ == (IoFailureView {
                stream,
                kind: SessionIoFailureKind::CleanupTimeout,
                io_kind: None,
                message: "did not stop within the "@ + crate::time::span_text(deadline@)
                    + " cleanup deadline"@,
            }),
    {
        SessionIoFailure {
            stream,
            kind: SessionIoFailureKind::CleanupTimeout,
            io_kind: None,
            message: join3(
                "did not stop within the ",
                deadline.text().as_str(),
                " cleanup deadline",
            ),
        }
    }

    pub fn text(&self) -> (text: String)
        ensures
            text@ == self@.text(),
    {
        join3(
            self.stream.label(),
            " pump ",
            join3(self.kind.label(), ": ", self.message.as_str()).as_str(),
        )
    }
}

/// What became of a pump at the end of its session.
#[derive(Debug)]
pub enum TaskEnd {
    Finished,
    Failed(IoErrorKind, String),
    /// The task itself was lost.
    Lost(String),
    /// It did not end within the deadline and was cut off.
    CutOff,
}

pub open spec fn failure_of(stream: SessionIoStream, end: TaskEnd, deadline: int) -> Option<
    IoFailureView,
> {
    match end {
        TaskEnd::Finished => None,
        TaskEnd::Failed(kind, message) => Some(
            IoFailureView {
                stream,
                kind: SessionIoFailureKind::Operation,
                io_kind: Some(kind),
                message: message@,
            },
        ),
        TaskEnd::Lost(message) => Some(
            IoFailureView {
                stream,
                kind: SessionIoFailureKind::Task,
                io_kind: None,
                message: message@,
            },
        ),
        TaskEnd::CutOff => Some(
            IoFailureView {
                stream,
                kind: SessionIoFailureKind::CleanupTimeout,
                io_kind: None,
                message: "did not stop within the "@ + crate::time::span_text(deadline)
                    + " cleanup deadline"@,
            },
        ),
    }
}

/// The failure of a pump, if its end is one.
pub fn flatten_session_io_task(stream: SessionIoStream, end: TaskEnd, deadline: Duration) -> (
    failure: Option<SessionIoFailure>)
    ensures
        match failure {
            Some(found) => failure_of(stream, end, deadline@) == Some(found@),
            None => failure_of(stream, end, deadline@) is None,
        },
{
    match end {
        TaskEnd::Finished => None,
        TaskEnd::Failed(kind, message) => Some(SessionIoFailure::operation(stream, kind, message)),
        TaskEnd::Lost(message) => Some(SessionIoFailure::task(stream, message)),
        TaskEnd::CutOff => Some(SessionIoFailure::cleanup_timeout(stream, deadline)),
    }
}

pub open spec fn failure_views(failures: Seq<SessionIoFailure>) -> Seq<IoFailureView> {
    failures.map_values(|failure: SessionIoFailure| failure@)
}

pub open spec fn failure_texts(failures: Seq<IoFailureView>) -> Seq<Seq<char>> {
    failures.map_values(|failure: IoFailureView| failure.text())
}

/// All that is left of a session once its event loop is over.
pub struct SessionEnd {
    /// The lifecycle with every failure taken into account.
    pub settled: Lifecycle,
    /// Whether a failure is to be published before the end.
    pub publish_failure: bool,
    pub timed_out: bool,
    /// Whether the command stage is recorded as failed.
    pub stage_failed: bool,
    pub messages: Vec<String>,
    pub io_failures: Vec<SessionIoFailure>,
    /// The dead session, where its command's exit is known.
    pub dead: Option<Lifecycle>,
}

impl SessionEnd {
    /// The lifecycles that are to be published, in their order.
    pub open spec fn publications(self) -> Seq<Lifecycle> {
        (if self.publish_failure {
            seq![self.settled]
        } else {
            Seq::empty()
        }) + (match self.dead {
            Some(dead) => seq![dead],
            None => Seq::empty(),
        })
    }
}

/// The lifecycle once the pumps' failures are known.
pub open spec fn settled_lifecycle(state: DriverView, failures: Seq<IoFailureView>) -> Lifecycle {
    if state.errors.len() + failures.len() > 0 {
        state.failed().lifecycle
    } else {
        state.lifecycle
    }
}

impl SessionDriver {
    /// Ends a session.  `failures` are those of the pumps, in the order stdin, stdout, stderr.
    pub(crate) fn finish(self, failures: Vec<SessionIoFailure>) -> (end: SessionEnd)
        requires
            self.wf(),
            self@.phase == Phase::Exited || self@.phase == Phase::Abandoned,
        ensures
            end.settled == settled_lifecycle(self@, failure_views(failures@)),
            end.publish_failure == (self@.errors.len() + failures@.len() > 0),
            end.timed_out == self@.timed_out,
            end.stage_failed == (self@.timed_out || self@.errors.len() + failures@.len() > 0),
            crate::text::strings(end.messages@) == self@.errors + failure_texts(
                failure_views(failures@),
            ),
            failure_views(end.io_failures@) == failure_views(failures@),
            match end.dead {
                Some(dead) => {
                    &&& self@.phase == Phase::Exited
                    &&& end.settled.after(LifecycleEvent::CleanupComplete) == Some(dead)
                },
                None => self@.phase == Phase::Abandoned,
            },
    {
        let ghost state = self@;
        let ghost views = failure_views(failures@);
        let (lifecycle, phase, timed_out, errors) = self.into_parts();
        let mut messages = errors;
        let ghost before = crate::text::strings(messages@);
        let mut i: usize = 0;
        assert(failure_texts(views).subrange(0, 0) =~= Seq::empty());
        assert(before + Seq::empty() =~= before);
        while i < failures.len()
            invariant
                i <= failures@.len(),
                views == failure_views(failures@),
                crate::text::strings(messages@) == before + failure_texts(views).subrange(
                    0,
                    i as int,
                ),
            decreases failures@.len() - i,
        {
            let ghost earlier = messages@;
            let text = failures[i].text();
            assert(failure_texts(views)[i as int] == text@);
            messages.push(text);
            i += 1;
            assert(crate::text::strings(messages@) =~= crate::text::strings(
                earlier,
            ).push(failure_texts(views)[i - 1]));
            assert(crate::text::strings(messages@) =~= before + failure_texts(
                views,
            ).subrange(0, i as int));
        }
        assert(failure_texts(views).subrange(0, i as int) =~= failure_texts(views));
        let failed: bool = messages.len() > 0;
        assert(crate::text::strings(messages@).len() == messages@.len());
        let mut settled = lifecycle;
        if failed {
            let mut failing = lifecycle;
            match failing.apply(LifecycleEvent::Fail) {
                Ok(()) => {
                    settled = failing;
                },
                Err(_) => {},
            }
        }
        let dead: Option<Lifecycle> = if phase == Phase::Exited {
            let mut dying = settled;
            match dying.apply(LifecycleEvent::CleanupComplete) {
                Ok(()) => Some(dying),
                Err(_) => None,
            }
        } else {
            None
        };
        SessionEnd {
            settled,
            publish_failure: failed,
            timed_out,
            stage_failed: timed_out || failed,
            messages,
            io_failures: failures,
            dead,
        }
    }
}

/// A session is published as dead only where its command's exit is known.
pub proof fn law_dead_needs_known_exit(state: DriverView, failures: Seq<IoFailureView>)
    requires
        state.wf(),
        state.phase == Phase::Exited || state.phase == Phase::Abandoned,
    ensures
        state.phase == Phase::Exited ==> settled_lifecycle(state, failures).after(
            LifecycleEvent::CleanupComplete,
        ) is Some,
        state.phase == Phase::Abandoned ==> settled_lifecycle(state, failures).state
            == SessionState::Failed,
{
}

/// Any failure that was met on the way makes the session's reason a failure; a deadline without a
/// failure makes it a timeout.
pub proof fn law_reason_of_the_end(state: DriverView, failures: Seq<IoFailureView>)
    requires
        state.wf(),
        state.phase == Phase::Exited,
    ensures
        state.errors.len() + failures.len() > 0 ==> settled_lifecycle(
            state,
            failures,
        ).termination_reason == Some(TerminationReason::Failed),
        state.errors.len() + failures.len() == 0 && state.lifecycle.state == SessionState::TimedOut
            ==> settled_lifecycle(state, failures).termination_reason == Some(
            TerminationReason::TimedOut,
        ),
{
}

/// What callers see of a session.
#[derive(Debug)]
pub struct SessionStatus {
    pub session_id: String,
    pub backend: String,
    pub resolved_image_digest: Option<String>,
    pub state: SessionState,
    pub termination_reason: Option<TerminationReason>,
    pub exit_code: Option<i32>,
    pub signal: Option<i32>,
    pub timed_out: bool,
    pub elapsed_micros: u64,
}

pub struct StatusView {
    pub session_id: Seq<char>,
    pub backend: Seq<char>,
    pub resolved_image_digest: Option<Seq<char>>,
    pub state: SessionState,
    pub termination_reason: Option<TerminationReason>,
    pub exit_code: Option<i32>,
    pub signal: Option<i32>,
    pub timed_out: bool,
    pub elapsed_micros: u64,
}

impl View for SessionStatus {
    type V = StatusView;

    open spec fn view(&self) -> StatusView {
        StatusView {
            session_id: self.session_id@,
            backend: self.backend@,
            resolved_image_digest: crate::text::text_of(self.resolved_image_digest),
            state: self.state,
            termination_reason: self.termination_reason,
            exit_code: self.exit_code,
            signal: self.signal,
            timed_out: self.timed_out,
            elapsed_micros: self.elapsed_micros,
        }
    }
}

/// An exit as a code and a signal, of which one is known.
#[derive(Debug, Clone, Copy, PartialEq, Eq, Structural)]
pub struct ExitParts {
    pub code: Option<i32>,
    pub signal: Option<i32>,
}

impl StatusView {
    /// The next status of a session: it keeps its identity, its backend and its image.
    pub open spec fn updated(
        self,
        lifecycle: Lifecycle,
        timed_out: bool,
        exit: ExitParts,
        started: int,
        now: int,
    ) -> StatusView {
        StatusView {
            state: lifecycle.state,
            termination_reason: lifecycle.termination_reason,
            exit_code: exit.code,
            signal: exit.signal,
            timed_out,
            elapsed_micros: crate::budget::micros_spec(crate::budget::elapsed_spec(started, now)),
            ..self
        }
    }
}

impl SessionStatus {
    /// The first status of a session.
    pub fn initial(
        session_id: String,
        backend: String,
        resolved_image_digest: Option<String>,
        lifecycle: Lifecycle,
    ) -> (status: SessionStatus)
        ensures
            status@ == (StatusView {
                session_id: session_id@,
                backend: backend@,
                resolved_image_digest: crate::text::text_of(resolved_image_digest),
                state: lifecycle.state,
                termination_reason: lifecycle.termination_reason,
                exit_code: None,
                signal: None,
                timed_out: false,
                elapsed_micros: 0,
            }),
    {
        SessionStatus {
            session_id,
            backend,
            resolved_image_digest,
            state: lifecycle.state,
            termination_reason: lifecycle.termination_reason,
            exit_code: None,
            signal: None,
            timed_out: false,
            elapsed_micros: 0,
        }
    }

    /// The next status of a session.
    pub fn publish_status(
        self,
        lifecycle: Lifecycle,
        timed_out: bool,
        exit: ExitParts,
        started: Duration,
        now: Duration,
    ) -> (status: SessionStatus)
        ensures
            status@ == self@.updated(lifecycle, timed_out, exit, started@, now@),
    {
        SessionStatus {
            session_id: self.session_id,
            backend: self.backend,
            resolved_image_digest: self.resolved_image_digest,
            state: lifecycle.state,
            termination_reason: lifecycle.termination_reason,
            exit_code: exit.code,
            signal: exit.signal,
            timed_out,
            elapsed_micros: duration_micros(now.saturating_sub(started)),
        }
    }
}

} // verus!
