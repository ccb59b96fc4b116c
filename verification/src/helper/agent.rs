//! The agent is put into a root disk before every start, and looked at again before it is trusted.

use vstd::prelude::*;
use vstd::slice::*;

use crate::bytes::same_bytes;
use crate::helper::{HelperError, HelperErrorView};
use crate::text::{contains_text, from_utf8_lossy, trim};

verus! {

/// How much of what a tool wrote is kept.
pub const DIAGNOSTIC_LIMIT: usize = 4096;

/// The end of what a tool wrote, without white space around it.
pub open spec fn diagnostic_text(bytes: Seq<u8>) -> Seq<char> {
    crate::text::trim_of(
        crate::text::lossy_text(
            crate::libkrun::network::bounded_tail(bytes, DIAGNOSTIC_LIMIT as int),
        ),
    )
}

/// The end of what a tool wrote.
pub fn bounded_diagnostic(bytes: &[u8]) -> (text: String)
    ensures
        text@ == diagnostic_text(bytes@),
{
    assert(bytes.len() == bytes@.len());
    let start: usize = if bytes.len() > DIAGNOSTIC_LIMIT {
        bytes.len() - DIAGNOSTIC_LIMIT
    } else {
        0
    };
    let tail = slice_subrange(bytes, start, bytes.len());
    assert(tail@ =~= crate::libkrun::network::bounded_tail(bytes@, DIAGNOSTIC_LIMIT as int));
    trim(from_utf8_lossy(tail).as_str())
}

#[derive(Debug, Clone, Copy, PartialEq, Eq, Structural)]
pub enum AgentPhase {
    /// An agent of an earlier start is removed, if there is one.
    Removing,
    Writing,
    SettingMode,
    Inspecting,
    ReadingBack,
    /// What was read back is compared.
    Comparing,
    Installed,
}

/// How a command to the disk tool ended.
#[derive(Debug)]
pub struct CommandEnd {
    pub success: bool,
    pub status: Option<i32>,
    pub stdout: Vec<u8>,
    pub stderr: Vec<u8>,
}

impl AgentPhase {
    /// What a phase does, in words.
    pub open spec fn operation_spec(self) -> Seq<char> {
        match self {
            AgentPhase::Removing => "remove previous guest agent"@,
            AgentPhase::Writing => "write guest agent"@,
            AgentPhase::SettingMode => "set guest agent mode"@,
            AgentPhase::Inspecting => "inspect guest agent"@,
            AgentPhase::ReadingBack => "read back guest agent"@,
            AgentPhase::Comparing => "compare guest agent"@,
            AgentPhase::Installed => "install guest agent"@,
        }
    }

    /// The command of a phase to the disk tool.
    pub open spec fn request_spec(self) -> Option<Seq<char>> {
        match self {
            AgentPhase::Removing => Some("rm /.moraebox-agent"@),
            AgentPhase::Writing => Some("write agent /.moraebox-agent"@),
            AgentPhase::SettingMode => Some("set_inode_field /.moraebox-agent mode 0100755"@),
            AgentPhase::Inspecting => Some("stat /.moraebox-agent"@),
            AgentPhase::ReadingBack => Some("dump /.moraebox-agent verified-agent"@),
            AgentPhase::Comparing | AgentPhase::Installed => None,
        }
    }

    /// What a phase does, in words.
    pub fn operation(&self) -> (text: &'static str)
        ensures
            text@ == self.operation_spec(),
    {
        match self {
            AgentPhase::Removing => "remove previous guest agent",
            AgentPhase::Writing => "write guest agent",
            AgentPhase::SettingMode => "set guest agent mode",
            AgentPhase::Inspecting => "inspect guest agent",
            AgentPhase::ReadingBack => "read back guest agent",
            AgentPhase::Comparing => "compare guest agent",
            AgentPhase::Installed => "install guest agent",
        }
    }

    /// The command of a phase to the disk tool.
    pub fn request(&self) -> (command: Option<&'static str>)
        ensures
            match (command, self.request_spec()) {
                (Some(given), Some(expected)) => given@ == expected,
                (None, None) => true,
                _ => false,
            },
    {
        match self {
            AgentPhase::Removing => Some("rm /.moraebox-agent"),
            AgentPhase::Writing => Some("write agent /.moraebox-agent"),
            AgentPhase::SettingMode => Some("set_inode_field /.moraebox-agent mode 0100755"),
            AgentPhase::Inspecting => Some("stat /.moraebox-agent"),
            AgentPhase::ReadingBack => Some("dump /.moraebox-agent verified-agent"),
            AgentPhase::Comparing | AgentPhase::Installed => None,
        }
    }

    /// The phase after a command that did what it should.
    pub open spec fn next(self) -> AgentPhase {
        match self {
            AgentPhase::Removing => AgentPhase::Writing,
            AgentPhase::Writing => AgentPhase::SettingMode,
            AgentPhase::SettingMode => AgentPhase::Inspecting,
            AgentPhase::Inspecting => AgentPhase::ReadingBack,
            AgentPhase::ReadingBack => AgentPhase::Comparing,
            AgentPhase::Comparing => AgentPhase::Comparing,
            AgentPhase::Installed => AgentPhase::Installed,
        }
    }

    /// What is wrong with the end of a command, if anything.  That there was no earlier agent to
    /// remove is nothing wrong.
    pub open spec fn complaint(self, end: CommandEnd) -> Option<HelperErrorView> {
        if self == AgentPhase::Removing {
            None
        } else if !end.success {
            Some(
                HelperErrorView::Debugfs {
                    operation: self.operation_spec(),
                    status: end.status,
                    stderr: diagnostic_text(end.stderr@),
                },
            )
        } else if self == AgentPhase::Inspecting && !is_executable_listing(end.stdout@) {
            Some(HelperErrorView::GuestAgentVerification("injected agent is not executable"@))
        } else {
            None
        }
    }

    /// Takes the end of the phase's command.
    pub fn step(self, end: CommandEnd) -> (next: Result<AgentPhase, HelperError>)
        ensures
            match next {
                Ok(phase) => self.complaint(end) is None && phase == self.next(),
                Err(error) => self.complaint(end) == Some(error@),
            },
    {
        if self != AgentPhase::Removing {
            if !end.success {
                return Err(
                    HelperError::Debugfs {
                        operation: self.operation().to_owned(),
                        status: end.status,
                        stderr: bounded_diagnostic(end.stderr.as_slice()),
                    },
                );
            }
            if self == AgentPhase::Inspecting {
                let listing = from_utf8_lossy(end.stdout.as_slice());
                if !contains_text(listing.as_str(), "Mode:  0755") && !contains_text(
                    listing.as_str(),
                    "Mode:  0100755",
                ) {
                    return Err(
                        HelperError::GuestAgentVerification(
                            "injected agent is not executable".to_owned(),
                        ),
                    );
                }
            }
        }
        Ok(
            match self {
                AgentPhase::Removing => AgentPhase::Writing,
                AgentPhase::Writing => AgentPhase::SettingMode,
                AgentPhase::SettingMode => AgentPhase::Inspecting,
                AgentPhase::Inspecting => AgentPhase::ReadingBack,
                AgentPhase::ReadingBack => AgentPhase::Comparing,
                AgentPhase::Comparing => AgentPhase::Comparing,
                AgentPhase::Installed => AgentPhase::Installed,
            },
        )
    }

    /// Compares what was read back with the agent that was to be written.
    pub fn compare(self, read_back: &[u8], agent: &[u8]) -> (next: Result<AgentPhase, HelperError>)
        requires
            self == AgentPhase::Comparing,
        ensures
            match next {
                Ok(phase) => read_back@ == agent@ && phase == AgentPhase::Installed,
                Err(error) => read_back@ != agent@ && error@
                    == HelperErrorView::GuestAgentVerification(
                    "injected agent content does not match the signed helper"@,
                ),
            },
    {
        if same_bytes(read_back, agent) {
            Ok(AgentPhase::Installed)
        } else {
            Err(
                HelperError::GuestAgentVerification(
                    "injected agent content does not match the signed helper".to_owned(),
                ),
            )
        }
    }
}

/// Whether a listing shows a file that everybody may execute.
pub open spec fn is_executable_listing(stdout: Seq<u8>) -> bool {
    let text = crate::text::lossy_text(stdout);
    crate::text::occurs_in(text, "Mode:  0755"@) || crate::text::occurs_in(
        text,
        "Mode:  0100755"@,
    )
}

/// The phase that is reached from the first with commands that did what they should.
pub open spec fn phase_after(commands: nat) -> AgentPhase
    decreases commands,
{
    if commands == 0 {
        AgentPhase::Removing
    } else {
        phase_after((commands - 1) as nat).next()
    }
}

/// An agent is never trusted unseen: no command leads to its being installed, and the comparison
/// of its content is reached only through its inspection.
pub proof fn law_agent_is_checked_before_use(phase: AgentPhase, commands: nat)
    ensures
        phase != AgentPhase::Installed ==> phase.next() != AgentPhase::Installed,
        phase.next() == AgentPhase::ReadingBack ==> phase == AgentPhase::Inspecting,
        phase.next() == AgentPhase::Comparing ==> phase == AgentPhase::ReadingBack || phase
            == AgentPhase::Comparing,
        phase_after(commands) != AgentPhase::Installed,
    decreases commands,
{
    if commands > 0 {
        law_agent_is_checked_before_use(phase_after((commands - 1) as nat), (commands - 1) as nat);
    }
}

} // verus!
