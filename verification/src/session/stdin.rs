//! The pump that feeds a command's standard input.

use vstd::prelude::*;

verus! {

/// What the pump waits for.
#[derive(Debug, Clone, Copy, PartialEq, Eq, Structural)]
pub enum StdinPhase {
    /// The initial input is being written.
    WritingInitial,
    /// The next request, or the end.
    Idle,
    /// A request's bytes are being written.
    Writing,
    /// The writer is being shut down.
    Closing,
    Ended,
}

#[derive(Debug, Clone, Copy, PartialEq, Eq, Structural)]
pub struct StdinPump {
    pub phase: StdinPhase,
    pub writer_open: bool,
}

#[derive(Debug, Clone, Copy, PartialEq, Eq, Structural)]
pub enum StdinEvent {
    /// The session shuts its input down.
    Shutdown,
    /// No more requests can come.
    RequestsClosed,
    WriteRequest,
    CloseRequest,
    /// The write or the shutdown that was begun is over.
    Completed,
    Failed,
}

/// What the caller is to do.
#[derive(Debug, Clone, Copy, PartialEq, Eq, Structural)]
pub enum StdinAction {
    WriteInitial,
    AwaitRequest,
    WriteBytes,
    /// Reply to the request, then wait for the next one.
    ReplyOk,
    /// Reply with the error that was met, then wait for the next request.
    ReplyErrorAndContinue,
    /// Reply with the error that was met, then end without a failure.
    ReplyErrorAndEnd,
    /// Reply that the input is closed, then end without a failure.
    ReplyClosedAndEnd,
    ShutdownWriter,
    EndOk,
    /// End with the error that was met.
    EndFailed,
    /// End because there is nothing to write the initial input to.
    EndUnavailable,
}

pub open spec fn stdin_start(writer: bool, initial: nat) -> (StdinPump, StdinAction) {
    if initial == 0 {
        (StdinPump { phase: StdinPhase::Idle, writer_open: writer }, StdinAction::AwaitRequest)
    } else if writer {
        (
            StdinPump { phase: StdinPhase::WritingInitial, writer_open: writer },
            StdinAction::WriteInitial,
        )
    } else {
        (StdinPump { phase: StdinPhase::Ended, writer_open: writer }, StdinAction::EndUnavailable)
    }
}

impl StdinPump {
    /// The events that can come.
    pub open spec fn expects(self, event: StdinEvent) -> bool {
        match self.phase {
            StdinPhase::WritingInitial | StdinPhase::Writing => event == StdinEvent::Shutdown
                || event == StdinEvent::Completed || event == StdinEvent::Failed,
            StdinPhase::Idle => event == StdinEvent::Shutdown || event
                == StdinEvent::RequestsClosed || event == StdinEvent::WriteRequest || event
                == StdinEvent::CloseRequest,
            StdinPhase::Closing => event == StdinEvent::Completed || event == StdinEvent::Failed,
            StdinPhase::Ended => false,
        }
    }

    pub open spec fn after(self, event: StdinEvent) -> (StdinPump, StdinAction) {
        let idle = StdinPump { phase: StdinPhase::Idle, ..self };
        let ended = StdinPump { phase: StdinPhase::Ended, ..self };
        match (self.phase, event) {
            (StdinPhase::WritingInitial, StdinEvent::Completed) => (
                idle,
                StdinAction::AwaitRequest,
            ),
            (StdinPhase::WritingInitial, StdinEvent::Failed) => (ended, StdinAction::EndFailed),
            (StdinPhase::WritingInitial, _) => (ended, StdinAction::EndOk),
            (StdinPhase::Idle, StdinEvent::WriteRequest) => if self.writer_open {
                (StdinPump { phase: StdinPhase::Writing, ..self }, StdinAction::WriteBytes)
            } else {
                (ended, StdinAction::ReplyClosedAndEnd)
            },
            (StdinPhase::Idle, StdinEvent::CloseRequest) => if self.writer_open {
                (
                    StdinPump { phase: StdinPhase::Closing, writer_open: false },
                    StdinAction::ShutdownWriter,
                )
            } else {
                (self, StdinAction::ReplyOk)
            },
            (StdinPhase::Idle, _) => (ended, StdinAction::EndOk),
            (StdinPhase::Writing, StdinEvent::Completed) => (idle, StdinAction::ReplyOk),
            (StdinPhase::Writing, StdinEvent::Failed) => (ended, StdinAction::ReplyErrorAndEnd),
            (StdinPhase::Writing, _) => (ended, StdinAction::ReplyClosedAndEnd),
            (StdinPhase::Closing, StdinEvent::Completed) => (idle, StdinAction::ReplyOk),
            (StdinPhase::Closing, _) => (idle, StdinAction::ReplyErrorAndContinue),
            (StdinPhase::Ended, _) => (self, StdinAction::EndOk),
        }
    }

    /// Begins with the initial input, of the given length.
    pub fn start(writer_open: bool, initial_len: usize) -> (begun: (StdinPump, StdinAction))
        ensures
            begun == stdin_start(writer_open, initial_len as nat),
    {
        if initial_len == 0 {
            return (StdinPump { phase: StdinPhase::Idle, writer_open }, StdinAction::AwaitRequest);
        }
        if !writer_open {
            return (
                StdinPump { phase: StdinPhase::Ended, writer_open },
                StdinAction::EndUnavailable,
            );
        }
        (StdinPump { phase: StdinPhase::WritingInitial, writer_open }, StdinAction::WriteInitial)
    }

    /// Takes an event and tells what is to be done.
    pub fn step(&mut self, event: StdinEvent) -> (action: StdinAction)
        requires
            old(self).expects(event),
        ensures
            (*final(self), action) == old(self).after(event),
    {
        match (self.phase, event) {
            (StdinPhase::WritingInitial, StdinEvent::Completed) => {
                self.phase = StdinPhase::Idle;
                StdinAction::AwaitRequest
            },
            (StdinPhase::WritingInitial, StdinEvent::Failed) => {
                self.phase = StdinPhase::Ended;
                StdinAction::EndFailed
            },
            (StdinPhase::WritingInitial, _) => {
                self.phase = StdinPhase::Ended;
                StdinAction::EndOk
            },
            (StdinPhase::Idle, StdinEvent::WriteRequest) => {
                if self.writer_open {
                    self.phase = StdinPhase::Writing;
                    StdinAction::WriteBytes
                } else {
                    self.phase = StdinPhase::Ended;
                    StdinAction::ReplyClosedAndEnd
                }
            },
            (StdinPhase::Idle, StdinEvent::CloseRequest) => {
                if self.writer_open {
                    self.phase = StdinPhase::Closing;
                    self.writer_open = false;
                    StdinAction::ShutdownWriter
                } else {
                    StdinAction::ReplyOk
                }
            },
            (StdinPhase::Idle, _) => {
                self.phase = StdinPhase::Ended;
                StdinAction::EndOk
            },
            (StdinPhase::Writing, StdinEvent::Completed) => {
                self.phase = StdinPhase::Idle;
                StdinAction::ReplyOk
            },
            (StdinPhase::Writing, StdinEvent::Failed) => {
                self.phase = StdinPhase::Ended;
                StdinAction::ReplyErrorAndEnd
            },
            (StdinPhase::Writing, _) => {
                self.phase = StdinPhase::Ended;
                StdinAction::ReplyClosedAndEnd
            },
            (StdinPhase::Closing, StdinEvent::Completed) => {
                self.phase = StdinPhase::Idle;
                StdinAction::ReplyOk
            },
            (StdinPhase::Closing, _) => {
                self.phase = StdinPhase::Idle;
                StdinAction::ReplyErrorAndContinue
            },
            (StdinPhase::Ended, _) => StdinAction::EndOk,
        }
    }
}

/// Shutting the input down ends the pump wherever it waits for the command to read, so a blocked
/// write cannot hold up a stop.
pub proof fn law_shutdown_releases_blocked_writes(pump: StdinPump)
    requires
        pump.phase == StdinPhase::WritingInitial || pump.phase == StdinPhase::Writing || pump.phase
            == StdinPhase::Idle,
    ensures
        pump.expects(StdinEvent::Shutdown),
        pump.after(StdinEvent::Shutdown).0.phase == StdinPhase::Ended,
{
}

/// Once the input is closed, no byte is written any more.
pub proof fn law_closed_input_takes_no_bytes(pump: StdinPump, event: StdinEvent)
    requires
        !pump.writer_open,
        pump.expects(event),
    ensures
        pump.after(event).1 != StdinAction::WriteBytes,
        !pump.after(event).0.writer_open,
{
}

} // verus!
