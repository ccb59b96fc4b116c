//! The terminal of a machine whose command runs on the helper's own: its end of input, its size
//! and the signals to it.

use vstd::prelude::*;

use crate::backend::{BackendError, BackendErrorView};

verus! {

/// How a machine can be controlled besides signals to its helper.
#[derive(Debug, Clone, Copy, PartialEq, Eq, Structural)]
pub enum NativeControl {
    Absent,
    Pty,
    Protocol,
}

/// How a new size reaches a terminal.
#[derive(Debug, Clone, Copy, PartialEq, Eq, Structural)]
pub enum ResizeRoute {
    /// As a frame through the control pipe.
    ControlPipe,
    /// The terminal is resized here, and the helper's process group is told.
    Terminal,
}

/// How a new size reaches the terminal of a machine, if it has one.
pub open spec fn resize_way(control: NativeControl) -> Option<ResizeRoute> {
    match control {
        NativeControl::Absent => None,
        NativeControl::Protocol => Some(ResizeRoute::ControlPipe),
        NativeControl::Pty => Some(ResizeRoute::Terminal),
    }
}

/// How a new size reaches the terminal of a machine; one without a terminal has no size.
pub fn resize_route(control: NativeControl) -> (route: Result<ResizeRoute, BackendError>)
    ensures
        match route {
            Ok(way) => resize_way(control) == Some(way),
            Err(_) => resize_way(control) is None,
        },
        match route {
            Ok(way) => control != NativeControl::Absent && way == (if control
                == NativeControl::Protocol {
                ResizeRoute::ControlPipe
            } else {
                ResizeRoute::Terminal
            }),
            Err(error) => control == NativeControl::Absent && error@
                == BackendErrorView::Unsupported("terminal resize"@),
        },
{
    match control {
        NativeControl::Absent => Err(BackendError::Unsupported("terminal resize".to_owned())),
        NativeControl::Protocol => Ok(ResizeRoute::ControlPipe),
        NativeControl::Pty => Ok(ResizeRoute::Terminal),
    }
}

/// How sending a signal ended.
#[derive(Debug)]
pub enum KillEnd {
    Sent,
    /// There is no such process group any more.
    NoSuchProcess,
    Failed(String),
}

/// Judges a signal that was sent: a group that is gone needs none.
pub fn kill_outcome(end: KillEnd) -> (outcome: Result<(), BackendError>)
    ensures
        match end {
            KillEnd::Failed(reason) => outcome matches Err(error) && error@
                == BackendErrorView::Control(reason@),
            _ => outcome is Ok,
        },
{
    match end {
        KillEnd::Sent | KillEnd::NoSuchProcess => Ok(()),
        KillEnd::Failed(reason) => Err(BackendError::Control(reason)),
    }
}

/// How many end-of-input characters close a terminal: one ends a line that was begun, the other
/// the input.
pub const EOF_CHARACTERS: usize = 2;

/// The input of a terminal, which is closed by characters.
#[derive(Debug, Clone, Copy, PartialEq, Eq, Structural)]
pub struct PtyInput {
    pub eof: u8,
    /// How many of the characters were written.
    pub eof_offset: usize,
    pub shutting_down: bool,
}

/// What closing the input of a terminal comes to.
#[derive(Debug, Clone, Copy, PartialEq, Eq, Structural)]
pub enum ShutdownStep {
    /// That many characters are still to be written.
    Write(usize),
    /// All are written, and the terminal itself can be closed.
    Close,
    /// Nothing could be written.
    WriteZero,
}

impl PtyInput {
    pub open spec fn wf(self) -> bool {
        self.eof_offset <= EOF_CHARACTERS && (self.eof_offset > 0 ==> self.shutting_down)
    }

    /// The input once its closing has begun, and what is to be done.
    pub open spec fn closing(self) -> (PtyInput, ShutdownStep) {
        (
            PtyInput { shutting_down: true, ..self },
            if self.eof_offset < EOF_CHARACTERS {
                ShutdownStep::Write((EOF_CHARACTERS - self.eof_offset) as usize)
            } else {
                ShutdownStep::Close
            },
        )
    }

    /// The input once more characters were written, and what is to be done.
    pub open spec fn written(self, count: usize) -> (PtyInput, ShutdownStep) {
        let after = PtyInput { eof_offset: (self.eof_offset + count) as usize, ..self };
        (
            after,
            if count == 0 {
                ShutdownStep::WriteZero
            } else if after.eof_offset < EOF_CHARACTERS {
                ShutdownStep::Write((EOF_CHARACTERS - after.eof_offset) as usize)
            } else {
                ShutdownStep::Close
            },
        )
    }

    pub fn new(eof: u8) -> (input: PtyInput)
        ensures
            input.wf(),
            input.eof == eof,
            input.eof_offset == 0,
            !input.shutting_down,
    {
        PtyInput { eof, eof_offset: 0, shutting_down: false }
    }

    /// Whether input can still be written.
    pub fn is_open(&self) -> (open: bool)
        ensures
            open == !self.shutting_down,
    {
        !self.shutting_down
    }

    /// Begins to close the input, or goes on with it: no input can be written any more.
    pub fn shut_down(&mut self) -> (step: ShutdownStep)
        requires
            old(self).wf(),
        ensures
            (*final(self), step) == old(self).closing(),
            final(self).wf(),
            *final(self) == (PtyInput { shutting_down: true, ..*old(self) }),
            step == (if old(self).eof_offset < EOF_CHARACTERS {
                ShutdownStep::Write((EOF_CHARACTERS - old(self).eof_offset) as usize)
            } else {
                ShutdownStep::Close
            }),
    {
        self.shutting_down = true;
        if self.eof_offset < EOF_CHARACTERS {
            ShutdownStep::Write(EOF_CHARACTERS - self.eof_offset)
        } else {
            ShutdownStep::Close
        }
    }

    /// Some of the characters were written.
    pub fn wrote(&mut self, count: usize) -> (step: ShutdownStep)
        requires
            old(self).wf(),
            old(self).shutting_down,
            count <= EOF_CHARACTERS - old(self).eof_offset,
        ensures
            (*final(self), step) == old(self).written(count),
            final(self).wf(),
            *final(self) == (PtyInput {
                eof_offset: (old(self).eof_offset + count) as usize,
                ..*old(self)
            }),
            step == (if count == 0 {
                ShutdownStep::WriteZero
            } else if final(self).eof_offset < EOF_CHARACTERS {
                ShutdownStep::Write((EOF_CHARACTERS - final(self).eof_offset) as usize)
            } else {
                ShutdownStep::Close
            }),
    {
        self.eof_offset = self.eof_offset + count;
        if count == 0 {
            ShutdownStep::WriteZero
        } else if self.eof_offset < EOF_CHARACTERS {
            ShutdownStep::Write(EOF_CHARACTERS - self.eof_offset)
        } else {
            ShutdownStep::Close
        }
    }
}

} // verus!
