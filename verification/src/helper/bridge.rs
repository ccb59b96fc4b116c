//! The host's side of the conversation with the agent in a machine.

use vstd::prelude::*;
use vstd::slice::*;
use vstd::string::*;

use crate::backend::{OutputChannel, Signal};
use crate::bytes::{copy_bytes, read_be16, read_be32};
use crate::helper::transfer::{PreparedCopy, ReceivedCopy, ReceivedView};
use crate::libkrun::{
    CopySpec, CONTROL_HANGUP, CONTROL_INTERRUPT, CONTROL_RESIZE, CONTROL_TERMINATE,
};
use crate::text::{decimal, join, join3, join_texts, signed_decimal};

verus! {

pub const MAX_COPY_ENTRIES: usize = 100_000;

#[derive(Debug)]
pub enum BridgeError {
    Io(String),
    Protocol(String),
    FrameTooLarge(usize),
    ExpectedHello,
    MissingAgentVersion,
    MissingCapabilities(String),
    InvalidOutputChannel(i32),
    InvalidExit(String),
    UnexpectedGuestPayload,
    AgentShutdown(String),
    SenderPoisoned,
    TransferIdsExhausted,
    UnexpectedCopyTransfer(u64),
    IncompleteCopyOut,
    CopyLimitExceeded(u64),
    CopySizeMismatch { expected: u64, actual: u64 },
    CopyDigestMismatch,
    TooManyCopyEntries,
    UnsafeCopyArchive(String),
    CopyDestinationExists(String),
}

pub enum BridgeErrorView {
    Io(Seq<char>),
    Protocol(Seq<char>),
    FrameTooLarge(usize),
    ExpectedHello,
    MissingAgentVersion,
    MissingCapabilities(Seq<char>),
    InvalidOutputChannel(i32),
    InvalidExit(Seq<char>),
    UnexpectedGuestPayload,
    AgentShutdown(Seq<char>),
    SenderPoisoned,
    TransferIdsExhausted,
    UnexpectedCopyTransfer(u64),
    IncompleteCopyOut,
    CopyLimitExceeded(u64),
    CopySizeMismatch { expected: u64, actual: u64 },
    CopyDigestMismatch,
    TooManyCopyEntries,
    UnsafeCopyArchive(Seq<char>),
    CopyDestinationExists(Seq<char>),
}

impl View for BridgeError {
    type V = BridgeErrorView;

    open spec fn view(&self) -> BridgeErrorView {
        match *self {
            BridgeError::Io(text) => BridgeErrorView::Io(text@),
            BridgeError::Protocol(text) => BridgeErrorView::Protocol(text@),
            BridgeError::FrameTooLarge(size) => BridgeErrorView::FrameTooLarge(size),
            BridgeError::ExpectedHello => BridgeErrorView::ExpectedHello,
            BridgeError::MissingAgentVersion => BridgeErrorView::MissingAgentVersion,
            BridgeError::MissingCapabilities(text) => BridgeErrorView::MissingCapabilities(text@),
            BridgeError::InvalidOutputChannel(number) => {
                BridgeErrorView::InvalidOutputChannel(number)
            },
            BridgeError::InvalidExit(text) => BridgeErrorView::InvalidExit(text@),
            BridgeError::UnexpectedGuestPayload => BridgeErrorView::UnexpectedGuestPayload,
            BridgeError::AgentShutdown(text) => BridgeErrorView::AgentShutdown(text@),
            BridgeError::SenderPoisoned => BridgeErrorView::SenderPoisoned,
            BridgeError::TransferIdsExhausted => BridgeErrorView::TransferIdsExhausted,
            BridgeError::UnexpectedCopyTransfer(id) => BridgeErrorView::UnexpectedCopyTransfer(id),
            BridgeError::IncompleteCopyOut => BridgeErrorView::IncompleteCopyOut,
            BridgeError::CopyLimitExceeded(limit) => BridgeErrorView::CopyLimitExceeded(limit),
            BridgeError::CopySizeMismatch { expected, actual } => {
                BridgeErrorView::CopySizeMismatch { expected, actual }
            },
            BridgeError::CopyDigestMismatch => BridgeErrorView::CopyDigestMismatch,
            BridgeError::TooManyCopyEntries => BridgeErrorView::TooManyCopyEntries,
            BridgeError::UnsafeCopyArchive(text) => BridgeErrorView::UnsafeCopyArchive(text@),
            BridgeError::CopyDestinationExists(path) => {
                BridgeErrorView::CopyDestinationExists(path@)
            },
        }
    }
}

impl BridgeErrorView {
    pub open spec fn text(self) -> Seq<char> {
        match self {
            BridgeErrorView::Io(text) => "protocol I/O failed: "@ + text,
            BridgeErrorView::Protocol(text) => "invalid protocol frame: "@ + text,
            BridgeErrorView::FrameTooLarge(size) => {
                "guest frame size "@ + crate::text::decimal_text(size as nat)
                    + " exceeds the protocol limit"@
            },
            BridgeErrorView::ExpectedHello => "the first guest frame was not Hello"@,
            BridgeErrorView::MissingAgentVersion => "guest agent version is empty"@,
            BridgeErrorView::MissingCapabilities(text) => {
                "guest agent is missing required capabilities: "@ + text
            },
            BridgeErrorView::InvalidOutputChannel(number) => {
                "guest sent an invalid output channel "@ + crate::text::signed_text(number as int)
            },
            BridgeErrorView::InvalidExit(text) => "guest sent an invalid exit status: "@ + text,
            BridgeErrorView::UnexpectedGuestPayload => {
                "guest sent a payload that is invalid in the running state"@
            },
            BridgeErrorView::AgentShutdown(text) => "guest agent shut down the session: "@ + text,
            BridgeErrorView::SenderPoisoned => "protocol sender lock was poisoned"@,
            BridgeErrorView::TransferIdsExhausted => "protocol transfer id space is exhausted"@,
            BridgeErrorView::UnexpectedCopyTransfer(id) => {
                "guest used unexpected copy transfer id "@ + crate::text::decimal_text(id as nat)
            },
            BridgeErrorView::IncompleteCopyOut => "guest exited before every copy-out completed"@,
            BridgeErrorView::CopyLimitExceeded(limit) => {
                "copy transfer exceeded its "@ + crate::text::decimal_text(limit as nat)
                    + "-byte limit"@
            },
            BridgeErrorView::CopySizeMismatch { expected, actual } => {
                "copy transfer size mismatch: expected "@ + crate::text::decimal_text(
                    expected as nat,
                ) + ", received "@ + crate::text::decimal_text(actual as nat)
            },
            BridgeErrorView::CopyDigestMismatch => "copy transfer sha256 digest does not match"@,
            BridgeErrorView::TooManyCopyEntries => {
                "copy archive contains more than "@ + crate::text::decimal_text(
                    MAX_COPY_ENTRIES as nat,
                ) + " entries"@
            },
            BridgeErrorView::UnsafeCopyArchive(text) => "unsafe copy archive: "@ + text,
            BridgeErrorView::CopyDestinationExists(path) => {
                "copy-out destination already exists: "@ + path
            },
        }
    }
}

impl BridgeError {
    pub fn message(&self) -> (text: String)
        ensures
            text@ == self@.text(),
    {
        match self {
            BridgeError::Io(text) => join("protocol I/O failed: ", text.as_str()),
            BridgeError::Protocol(text) => join("invalid protocol frame: ", text.as_str()),
            BridgeError::FrameTooLarge(size) => join3(
                "guest frame size ",
                decimal(*size as u64).as_str(),
                " exceeds the protocol limit",
            ),
            BridgeError::ExpectedHello => "the first guest frame was not Hello".to_owned(),
            BridgeError::MissingAgentVersion => "guest agent version is empty".to_owned(),
            BridgeError::MissingCapabilities(text) => join(
                "guest agent is missing required capabilities: ",
                text.as_str(),
            ),
            BridgeError::InvalidOutputChannel(number) => join(
                "guest sent an invalid output channel ",
                signed_decimal(*number).as_str(),
            ),
            BridgeError::InvalidExit(text) => join(
                "guest sent an invalid exit status: ",
                text.as_str(),
            ),
            BridgeError::UnexpectedGuestPayload => {
                "guest sent a payload that is invalid in the running state".to_owned()
            },
            BridgeError::AgentShutdown(text) => join(
                "guest agent shut down the session: ",
                text.as_str(),
            ),
            BridgeError::SenderPoisoned => "protocol sender lock was poisoned".to_owned(),
            BridgeError::TransferIdsExhausted => {
                "protocol transfer id space is exhausted".to_owned()
            },
            BridgeError::UnexpectedCopyTransfer(id) => join(
                "guest used unexpected copy transfer id ",
                decimal(*id).as_str(),
            ),
            BridgeError::IncompleteCopyOut => {
                "guest exited before every copy-out completed".to_owned()
            },
            BridgeError::CopyLimitExceeded(limit) => join3(
                "copy transfer exceeded its ",
                decimal(*limit).as_str(),
                "-byte limit",
            ),
            BridgeError::CopySizeMismatch { expected, actual } => {
                let mut text = join(
                    "copy transfer size mismatch: expected ",
                    decimal(*expected).as_str(),
                );
                text.append(", received ");
                text.append(decimal(*actual).as_str());
                text
            },
            BridgeError::CopyDigestMismatch => {
                "copy transfer sha256 digest does not match".to_owned()
            },
            BridgeError::TooManyCopyEntries => join3(
                "copy archive contains more than ",
                decimal(MAX_COPY_ENTRIES as u64).as_str(),
                " entries",
            ),
            BridgeError::UnsafeCopyArchive(text) => join("unsafe copy archive: ", text.as_str()),
            BridgeError::CopyDestinationExists(path) => join(
                "copy-out destination already exists: ",
                path.as_str(),
            ),
        }
    }
}


/// What the host tells the agent.
#[derive(Debug)]
pub enum HostFrame {
    CopyInStart { transfer_id: u64, destination: String, archive_size: u64, sha256: String },
    CopyInChunk { transfer_id: u64, data: Vec<u8> },
    CopyInEnd { transfer_id: u64 },
    CopyOutRequest { transfer_id: u64, source: String, max_bytes: u64 },
    Exec {
        argv: Vec<String>,
        cwd: String,
        env: Vec<String>,
        tty: bool,
        rows: u32,
        cols: u32,
    },
    Stdin(Vec<u8>),
    StdinEof,
    Signal(Signal),
    Resize { rows: u32, cols: u32 },
}

pub enum HostFrameView {
    CopyInStart {
        transfer_id: u64,
        destination: Seq<char>,
        archive_size: u64,
        sha256: Seq<char>,
    },
    CopyInChunk { transfer_id: u64, data: Seq<u8> },
    CopyInEnd { transfer_id: u64 },
    CopyOutRequest { transfer_id: u64, source: Seq<char>, max_bytes: u64 },
    Exec {
        argv: Seq<Seq<char>>,
        cwd: Seq<char>,
        env: Seq<Seq<char>>,
        tty: bool,
        rows: u32,
        cols: u32,
    },
    Stdin(Seq<u8>),
    StdinEof,
    Signal(Signal),
    Resize { rows: u32, cols: u32 },
}

impl View for HostFrame {
    type V = HostFrameView;

    open spec fn view(&self) -> HostFrameView {
        match *self {
            HostFrame::CopyInStart { transfer_id, destination, archive_size, sha256 } => {
                HostFrameView::CopyInStart {
                    transfer_id,
                    destination: destination@,
                    archive_size,
                    sha256: sha256@,
                }
            },
            HostFrame::CopyInChunk { transfer_id, data } => HostFrameView::CopyInChunk {
                transfer_id,
                data: data@,
            },
            HostFrame::CopyInEnd { transfer_id } => HostFrameView::CopyInEnd { transfer_id },
            HostFrame::CopyOutRequest { transfer_id, source, max_bytes } => {
                HostFrameView::CopyOutRequest { transfer_id, source: source@, max_bytes }
            },
            HostFrame::Exec { argv, cwd, env, tty, rows, cols } => HostFrameView::Exec {
                argv: crate::text::strings(argv@),
                cwd: cwd@,
                env: crate::text::strings(env@),
                tty,
                rows,
                cols,
            },
            HostFrame::Stdin(data) => HostFrameView::Stdin(data@),
            HostFrame::StdinEof => HostFrameView::StdinEof,
            HostFrame::Signal(signal) => HostFrameView::Signal(signal),
            HostFrame::Resize { rows, cols } => HostFrameView::Resize { rows, cols },
        }
    }
}

pub open spec fn frame_views(frames: Seq<HostFrame>) -> Seq<HostFrameView> {
    frames.map_values(|frame: HostFrame| frame@)
}

/// Where output of the guest belongs; a number that stands for nothing is kept.
#[derive(Debug, Clone, Copy, PartialEq, Eq, Structural)]
pub enum WireChannel {
    Known(OutputChannel),
    Unknown(i32),
}

/// What the agent tells the host.
#[derive(Debug)]
pub enum GuestFrame {
    Hello { agent_version: String, capabilities: Vec<String> },
    Output { channel: WireChannel, data: Vec<u8> },
    CopyOutStart { transfer_id: u64 },
    CopyOutChunk { transfer_id: u64, data: Vec<u8> },
    CopyOutEnd { transfer_id: u64, total_bytes: u64, sha256: String },
    Exit { code: i32, signal: Option<i32> },
    Shutdown { reason: String },
    /// Anything else.
    Other,
}

/// The length that a frame states in its first four bytes, or the error of one that is too long.
pub open spec fn declared_length(header: Seq<u8>, maximum: usize) -> Result<
    usize,
    BridgeErrorView,
> {
    let declared = crate::bytes::be32(header, 0);
    if declared > maximum {
        Err(BridgeErrorView::FrameTooLarge(declared as usize))
    } else {
        Ok(declared as usize)
    }
}

/// The length of a frame, by its first four bytes.
pub fn frame_length(header: [u8; 4], maximum: usize) -> (length: Result<usize, BridgeError>)
    ensures
        match (length, declared_length(header@, maximum)) {
            (Ok(given), Ok(expected)) => given == expected,
            (Err(error), Err(expected)) => error@ == expected,
            _ => false,
        },
        match length {
            Ok(declared) => declared == crate::bytes::be32(header@, 0) && declared <= maximum,
            Err(error) => crate::bytes::be32(header@, 0) > maximum && error@
                == BridgeErrorView::FrameTooLarge(crate::bytes::be32(header@, 0) as usize),
        },
{
    let declared: usize = read_be32(header.as_slice(), 0) as usize;
    if declared > maximum {
        Err(BridgeError::FrameTooLarge(declared))
    } else {
        Ok(declared)
    }
}

pub open spec fn required_capabilities_spec() -> Seq<Seq<char>> {
    seq![
        "exec"@,
        "stdin"@,
        "signal"@,
        "resize"@,
        "tty"@,
        "output-v1"@,
        "copy-tar-v1"@,
    ]
}

/// What an agent has to be able to do.
pub fn required_capabilities() -> (names: Vec<&'static str>)
    ensures
        crate::doctor::discovery::str_views(names@) == required_capabilities_spec(),
{
    let names: Vec<&'static str> =
        vec!["exec", "stdin", "signal", "resize", "tty", "output-v1", "copy-tar-v1"];
    assert(crate::doctor::discovery::str_views(names@) =~= required_capabilities_spec());
    names
}

/// What an agent is missing.
pub open spec fn missing_capabilities(offered: Seq<Seq<char>>) -> Seq<Seq<char>> {
    required_capabilities_spec().filter(|name: Seq<char>| !offered.contains(name))
}

/// What is wrong with the first frame of an agent, if anything.
pub open spec fn hello_complaint(version: Seq<char>, offered: Seq<Seq<char>>) -> Option<
    BridgeErrorView,
> {
    if version.len() == 0 {
        Some(BridgeErrorView::MissingAgentVersion)
    } else if missing_capabilities(offered).len() > 0 {
        Some(
            BridgeErrorView::MissingCapabilities(
                crate::text::joined_by(missing_capabilities(offered), ", "@),
            ),
        )
    } else {
        None
    }
}

/// Checks what an agent says of itself.
pub fn validate_agent_hello(agent_version: &str, capabilities: &Vec<String>) -> (validated: Result<
    (),
    BridgeError,
>)
    ensures
        match validated {
            Ok(()) => hello_complaint(agent_version@, crate::text::strings(capabilities@)) is None,
            Err(error) => hello_complaint(agent_version@, crate::text::strings(capabilities@))
                == Some(error@),
        },
{
    if agent_version.unicode_len() == 0 {
        return Err(BridgeError::MissingAgentVersion);
    }
    let required = required_capabilities();
    let ghost names = required_capabilities_spec();
    let ghost offered = crate::text::strings(capabilities@);
    let ghost is_missing = |name: Seq<char>| !offered.contains(name);
    let mut missing: Vec<String> = Vec::new();
    let mut i: usize = 0;
    reveal(Seq::filter);
    assert(names.subrange(0, 0) =~= Seq::empty());
    assert(crate::text::strings(missing@) =~= Seq::empty());
    while i < required.len()
        invariant
            i <= required@.len(),
            names == crate::doctor::discovery::str_views(required@),
            offered == crate::text::strings(capabilities@),
            is_missing == (|name: Seq<char>| !offered.contains(name)),
            crate::text::strings(missing@) == names.subrange(0, i as int).filter(is_missing),
        decreases required@.len() - i,
    {
        reveal(Seq::filter);
        let ghost before = missing@;
        assert(names[i as int] == required@[i as int]@);
        assert(names.subrange(0, i + 1).drop_last() =~= names.subrange(0, i as int));
        if !crate::doctor::discovery::is_listed(capabilities, required[i]) {
            missing.push(required[i].to_owned());
            assert(crate::text::strings(missing@) =~= crate::text::strings(before).push(
                names[i as int],
            ));
        }
        i += 1;
    }
    assert(names.subrange(0, i as int) =~= names);
    assert(crate::text::strings(missing@).len() == missing@.len());
    if missing.len() == 0 {
        Ok(())
    } else {
        Err(BridgeError::MissingCapabilities(join_texts(&missing, ", ")))
    }
}

/// What is wrong with how a command ended, if anything.
pub open spec fn exit_complaint(code: i32, signal: Option<i32>) -> Option<Seq<char>> {
    match signal {
        Some(number) => if number < 1 || number > 127 {
            Some(
                "signal "@ + crate::text::signed_text(number as int) + " is outside 1..=127"@,
            )
        } else if code != 0 {
            Some("code must be zero when signal is present"@)
        } else {
            None
        },
        None => if code < 0 || code > 255 {
            Some("code "@ + crate::text::signed_text(code as int) + " is outside 0..=255"@)
        } else {
            None
        },
    }
}

/// The exit code that stands for how a command ended.
pub fn protocol_exit_code(code: i32, signal: Option<i32>) -> (exit: Result<i32, BridgeError>)
    ensures
        match exit {
            Ok(number) => exit_complaint(code, signal) is None && number == (match signal {
                Some(signal) => 128 + signal,
                None => code as int,
            }),
            Err(error) => exit_complaint(code, signal) is Some && error@
                == BridgeErrorView::InvalidExit(exit_complaint(code, signal)->0),
        },
{
    match signal {
        Some(number) => {
            if number < 1 || number > 127 {
                return Err(
                    BridgeError::InvalidExit(
                        join3(
                            "signal ",
                            signed_decimal(number).as_str(),
                            " is outside 1..=127",
                        ),
                    ),
                );
            }
            if code != 0 {
                return Err(
                    BridgeError::InvalidExit("code must be zero when signal is present".to_owned()),
                );
            }
            Ok(128 + number)
        },
        None => {
            if code < 0 || code > 255 {
                return Err(
                    BridgeError::InvalidExit(
                        join3("code ", signed_decimal(code).as_str(), " is outside 0..=255"),
                    ),
                );
            }
            Ok(code)
        },
    }
}

/// The message in a frame of the control pipe; `None` of one that holds none.
pub open spec fn parent_control_of(message: Seq<u8>) -> Option<HostFrameView> {
    let rows = crate::bytes::be16(message, 1);
    let cols = crate::bytes::be16(message, 3);
    if message[0] == CONTROL_RESIZE {
        if rows != 0 && cols != 0 {
            Some(HostFrameView::Resize { rows: rows as u32, cols: cols as u32 })
        } else {
            None
        }
    } else if message[0] == CONTROL_INTERRUPT {
        Some(HostFrameView::Signal(Signal::Interrupt))
    } else if message[0] == CONTROL_TERMINATE {
        Some(HostFrameView::Signal(Signal::Terminate))
    } else if message[0] == CONTROL_HANGUP {
        Some(HostFrameView::Signal(Signal::Hangup))
    } else {
        None
    }
}

/// Reads a frame of the control pipe.
pub fn decode_parent_control(message: [u8; 5]) -> (frame: Option<HostFrame>)
    ensures
        match (frame, parent_control_of(message@)) {
            (Some(given), Some(expected)) => given@ == expected,
            (None, None) => true,
            _ => false,
        },
{
    let operation: u8 = message[0];
    if operation == CONTROL_RESIZE {
        let rows: u16 = read_be16(message.as_slice(), 1);
        let cols: u16 = read_be16(message.as_slice(), 3);
        if rows != 0 && cols != 0 {
            Some(HostFrame::Resize { rows: rows as u32, cols: cols as u32 })
        } else {
            None
        }
    } else if operation == CONTROL_INTERRUPT {
        Some(HostFrame::Signal(Signal::Interrupt))
    } else if operation == CONTROL_TERMINATE {
        Some(HostFrame::Signal(Signal::Terminate))
    } else if operation == CONTROL_HANGUP {
        Some(HostFrame::Signal(Signal::Hangup))
    } else {
        None
    }
}

/// The helper understands what the host writes into the control pipe: a size comes out as that
/// size, and a signal as that signal.
pub proof fn law_control_pipe_is_understood(rows: u16, cols: u16, signal: Signal)
    requires
        rows != 0,
        cols != 0,
    ensures
        parent_control_of(crate::libkrun::resize_bytes(rows, cols)) == Some(
            HostFrameView::Resize { rows: rows as u32, cols: cols as u32 },
        ),
        crate::libkrun::signal_opcode(signal) is Some ==> parent_control_of(
            seq![crate::libkrun::signal_opcode(signal)->0, 0u8, 0u8, 0u8, 0u8],
        ) == Some(HostFrameView::Signal(signal)),
{
    let message = crate::libkrun::resize_bytes(rows, cols);
    assert(message[1] == (rows / 256) as u8 && message[2] == (rows % 256) as u8);
    assert(message[3] == (cols / 256) as u8 && message[4] == (cols % 256) as u8);
    assert(crate::bytes::be16(message, 1) == rows);
    assert(crate::bytes::be16(message, 3) == cols);
}

pub const SIGHUP: i32 = 1;

pub const SIGINT: i32 = 2;

pub const SIGTERM: i32 = 15;

pub const SIGWINCH: i32 = 28;

/// What a signal to the helper tells the agent; `size` is the size of the helper's terminal, if it
/// has one.
pub open spec fn relayed(number: i32, tty: bool, size: Option<(u16, u16)>) -> Option<
    HostFrameView,
> {
    if number == SIGINT {
        Some(HostFrameView::Signal(Signal::Interrupt))
    } else if number == SIGTERM {
        Some(HostFrameView::Signal(Signal::Terminate))
    } else if number == SIGHUP {
        Some(HostFrameView::Signal(Signal::Hangup))
    } else if number == SIGWINCH && tty && size is Some && (size->0).0 != 0 && (size->0).1 != 0 {
        Some(HostFrameView::Resize { rows: (size->0).0 as u32, cols: (size->0).1 as u32 })
    } else {
        None
    }
}

/// Relays a signal to the helper.
pub fn relay_signal(number: i32, tty: bool, size: Option<(u16, u16)>) -> (frame: Option<HostFrame>)
    ensures
        match (frame, relayed(number, tty, size)) {
            (Some(given), Some(expected)) => given@ == expected,
            (None, None) => true,
            _ => false,
        },
{
    if number == SIGINT {
        Some(HostFrame::Signal(Signal::Interrupt))
    } else if number == SIGTERM {
        Some(HostFrame::Signal(Signal::Terminate))
    } else if number == SIGHUP {
        Some(HostFrame::Signal(Signal::Hangup))
    } else if number == SIGWINCH && tty {
        match size {
            Some(size) => {
                if size.0 != 0 && size.1 != 0 {
                    Some(HostFrame::Resize { rows: size.0 as u32, cols: size.1 as u32 })
                } else {
                    None
                }
            },
            None => None,
        }
    } else {
        None
    }
}

/// How a read of the helper's input ended.
#[derive(Debug)]
pub enum StdinRead {
    Data(Vec<u8>),
    End,
    Interrupted,
    Failed,
}

/// What a read of the helper's input leads to.
#[derive(Debug)]
pub enum StdinStep {
    /// The frame is sent, and more is read.
    Send(HostFrame),
    /// The frame is sent, and no more is read.
    SendLast(HostFrame),
    Retry,
    Stop,
}

/// What a read of the helper's input leads to.
pub open spec fn forwarded(read: StdinRead) -> StdinStep {
    match read {
        StdinRead::Data(data) => StdinStep::Send(HostFrame::Stdin(data)),
        StdinRead::End => StdinStep::SendLast(HostFrame::StdinEof),
        StdinRead::Interrupted => StdinStep::Retry,
        StdinRead::Failed => StdinStep::Stop,
    }
}

/// Forwards what was read of the helper's input.
pub fn forward_stdin(read: StdinRead) -> (step: StdinStep)
    ensures
        step == forwarded(read),
        match read {
            StdinRead::Data(data) => step == StdinStep::Send(HostFrame::Stdin(data)),
            StdinRead::End => step == StdinStep::SendLast(HostFrame::StdinEof),
            StdinRead::Interrupted => step is Retry,
            StdinRead::Failed => step is Stop,
        },
{
    match read {
        StdinRead::Data(data) => StdinStep::Send(HostFrame::Stdin(data)),
        StdinRead::End => StdinStep::SendLast(HostFrame::StdinEof),
        StdinRead::Interrupted => StdinStep::Retry,
        StdinRead::Failed => StdinStep::Stop,
    }
}

/// The number of a transfer and the one that follows it; none where they are used up.
pub open spec fn transfer_id_of(next: u64) -> Option<(u64, u64)> {
    if next == u64::MAX {
        None
    } else {
        Some((next, (next + 1) as u64))
    }
}

/// Takes the next number of a transfer; the last one is never given out.
pub fn take_transfer_id(next: &mut u64) -> (taken: Result<u64, BridgeError>)
    ensures
        match (taken, transfer_id_of(*old(next))) {
            (Ok(id), Some((number, following))) => id == number && *final(next) == following,
            (Err(_), None) => *final(next) == *old(next),
            _ => false,
        },
        match taken {
            Ok(id) => id == *old(next) && *old(next) < u64::MAX && *final(next) == *old(next) + 1,
            Err(error) => *old(next) == u64::MAX && *final(next) == *old(next) && error@
                == BridgeErrorView::TransferIdsExhausted,
        },
{
    let current: u64 = *next;
    if current == u64::MAX {
        return Err(BridgeError::TransferIdsExhausted);
    }
    *next = current + 1;
    Ok(current)
}

/// The most bytes of an archive that one frame carries.
pub const COPY_CHUNK_SIZE: usize = 64 * 1024;

/// The end of the chunk of an archive that begins at a position.
pub open spec fn chunk_end(from: int, length: int) -> int {
    if length - from > COPY_CHUNK_SIZE {
        from + COPY_CHUNK_SIZE
    } else {
        length
    }
}

/// The chunks of an archive from a position on.
pub open spec fn chunk_frames(transfer_id: u64, archive: Seq<u8>, from: int) -> Seq<HostFrameView>
    decreases archive.len() - from,
{
    if 0 <= from < archive.len() {
        seq![
            HostFrameView::CopyInChunk {
                transfer_id,
                data: archive.subrange(from, chunk_end(from, archive.len() as int)),
            },
        ] + chunk_frames(transfer_id, archive, chunk_end(from, archive.len() as int))
    } else {
        Seq::empty()
    }
}

/// How an archive is sent to the agent: announced with its size and digest, in chunks, and ended.
pub open spec fn copy_in_frames(
    transfer_id: u64,
    destination: Seq<char>,
    archive: Seq<u8>,
    size: u64,
    digest: Seq<char>,
) -> Seq<HostFrameView> {
    seq![
        HostFrameView::CopyInStart {
            transfer_id,
            destination,
            archive_size: size,
            sha256: digest,
        },
    ] + chunk_frames(transfer_id, archive, 0) + seq![HostFrameView::CopyInEnd { transfer_id }]
}

/// Frames an archive for the agent.
pub fn send_copy_in(transfer_id: u64, destination: &str, copy: &PreparedCopy) -> (frames: Vec<
    HostFrame,
>)
    ensures
        frame_views(frames@) == copy_in_frames(
            transfer_id,
            destination@,
            copy.bytes@,
            copy.size,
            copy.digest@,
        ),
{
    let ghost archive = copy.bytes@;
    let ghost start = seq![
        HostFrameView::CopyInStart {
            transfer_id,
            destination: destination@,
            archive_size: copy.size,
            sha256: copy.digest@,
        },
    ];
    let mut frames: Vec<HostFrame> = Vec::new();
    frames.push(
        HostFrame::CopyInStart {
            transfer_id,
            destination: destination.to_owned(),
            archive_size: copy.size,
            sha256: copy.digest.as_str().to_owned(),
        },
    );
    let bytes: &[u8] = copy.bytes.as_slice();
    let mut from: usize = 0;
    assert(frame_views(frames@) =~= start);
    assert(bytes.len() == bytes@.len());
    while from < bytes.len()
        invariant
            bytes@ == archive,
            from <= archive.len() <= usize::MAX,
            frame_views(frames@) + chunk_frames(transfer_id, archive, from as int) == start
                + chunk_frames(transfer_id, archive, 0),
        decreases archive.len() - from,
    {
        let end: usize = if bytes.len() - from > COPY_CHUNK_SIZE {
            from + COPY_CHUNK_SIZE
        } else {
            bytes.len()
        };
        let ghost before = frames@;
        let data = copy_bytes(slice_subrange(bytes, from, end));
        let ghost piece = HostFrameView::CopyInChunk {
            transfer_id,
            data: archive.subrange(from as int, end as int),
        };
        frames.push(HostFrame::CopyInChunk { transfer_id, data });
        assert(frame_views(frames@) =~= frame_views(before).push(piece));
        assert(frame_views(frames@) + chunk_frames(transfer_id, archive, end as int)
            =~= frame_views(before) + chunk_frames(transfer_id, archive, from as int));
        from = end;
    }
    let ghost sent = frames@;
    frames.push(HostFrame::CopyInEnd { transfer_id });
    assert(chunk_frames(transfer_id, archive, from as int) =~= Seq::empty());
    assert(frame_views(frames@) =~= frame_views(sent).push(
        HostFrameView::CopyInEnd { transfer_id },
    ));
    assert(frame_views(frames@) =~= copy_in_frames(
        transfer_id,
        destination@,
        archive,
        copy.size,
        copy.digest@,
    ));
    frames
}

/// The data of chunks, one after the other.
pub open spec fn chunk_data(frames: Seq<HostFrameView>) -> Seq<u8>
    decreases frames.len(),
{
    if frames.len() == 0 {
        Seq::empty()
    } else {
        match frames[0] {
            HostFrameView::CopyInChunk { data, .. } => data + chunk_data(frames.drop_first()),
            _ => chunk_data(frames.drop_first()),
        }
    }
}

/// The chunks of an archive make up the archive, and none is longer than a frame may carry or
/// empty.
pub proof fn law_chunks_make_up_the_archive(transfer_id: u64, archive: Seq<u8>, from: int)
    requires
        0 <= from <= archive.len(),
    ensures
        chunk_data(chunk_frames(transfer_id, archive, from)) == archive.subrange(
            from,
            archive.len() as int,
        ),
        forall|i: int|
            0 <= i < chunk_frames(transfer_id, archive, from).len() ==> match (
            #[trigger] chunk_frames(transfer_id, archive, from)[i]) {
                HostFrameView::CopyInChunk { transfer_id: id, data } => id == transfer_id && 0
                    < data.len() <= COPY_CHUNK_SIZE,
                _ => false,
            },
    decreases archive.len() - from,
{
    let frames = chunk_frames(transfer_id, archive, from);
    if from < archive.len() {
        let end = chunk_end(from, archive.len() as int);
        law_chunks_make_up_the_archive(transfer_id, archive, end);
        let rest = chunk_frames(transfer_id, archive, end);
        assert(frames.drop_first() =~= rest);
        assert(archive.subrange(from, end) + archive.subrange(end, archive.len() as int)
            =~= archive.subrange(from, archive.len() as int));
        assert forall|i: int| 0 <= i < frames.len() implies match (#[trigger] frames[i]) {
            HostFrameView::CopyInChunk { transfer_id: id, data } => id == transfer_id && 0
                < data.len() <= COPY_CHUNK_SIZE,
            _ => false,
        } by {
            if i > 0 {
                assert(frames[i] == rest[i - 1]);
            }
        }
    } else {
        assert(frames =~= Seq::empty());
        assert(archive.subrange(from, archive.len() as int) =~= Seq::empty());
    }
}

/// What the command of a machine is told.
#[derive(Debug)]
pub struct ExecRequest {
    pub command: Vec<String>,
    pub cwd: String,
    pub environment: Vec<String>,
    pub tty: bool,
    pub rows: u16,
    pub cols: u16,
}

/// The frame that starts the command.
pub fn exec_frame(request: ExecRequest) -> (frame: HostFrame)
    ensures
        frame@ == (HostFrameView::Exec {
            argv: crate::text::strings(request.command@),
            cwd: request.cwd@,
            env: crate::text::strings(request.environment@),
            tty: request.tty,
            rows: request.rows as u32,
            cols: request.cols as u32,
        }),
{
    HostFrame::Exec {
        argv: request.command,
        cwd: request.cwd,
        env: request.environment,
        tty: request.tty,
        rows: request.rows as u32,
        cols: request.cols as u32,
    }
}

/// A copy out of the guest that was asked for.
#[derive(Debug)]
pub struct PendingCopy {
    pub transfer_id: u64,
    pub destination: String,
}

pub struct PendingView {
    pub transfer_id: u64,
    pub destination: Seq<char>,
}

impl View for PendingCopy {
    type V = PendingView;

    open spec fn view(&self) -> PendingView {
        PendingView { transfer_id: self.transfer_id, destination: self.destination@ }
    }
}

pub open spec fn pending_views(pending: Seq<PendingCopy>) -> Seq<PendingView> {
    pending.map_values(|copy: PendingCopy| copy@)
}

/// The copies out of the guest that are asked for, numbered from a number on.
pub open spec fn numbered_copies(copies: Seq<CopySpec>, first: u64, upto: nat) -> Seq<PendingView>
    decreases upto,
{
    if upto == 0 {
        Seq::empty()
    } else {
        numbered_copies(copies, first, (upto - 1) as nat).push(
            PendingView {
                transfer_id: (first + upto - 1) as u64,
                destination: copies[upto - 1].destination@,
            },
        )
    }
}

pub open spec fn request_frames(
    copies: Seq<CopySpec>,
    first: u64,
    limit: u64,
    upto: nat,
) -> Seq<HostFrameView>
    decreases upto,
{
    if upto == 0 {
        Seq::empty()
    } else {
        request_frames(copies, first, limit, (upto - 1) as nat).push(
            HostFrameView::CopyOutRequest {
                transfer_id: (first + upto - 1) as u64,
                source: copies[upto - 1].source@,
                max_bytes: limit,
            },
        )
    }
}

/// Asks for copies out of the guest, and remembers where each is to go.
pub fn request_copies(copies: &Vec<CopySpec>, limit: u64, next: &mut u64) -> (requested: Result<
    (Vec<HostFrame>, Vec<PendingCopy>),
    BridgeError,
>)
    ensures
        match requested {
            Ok((frames, pending)) => {
                &&& *old(next) + copies@.len() <= u64::MAX
                &&& *final(next) == *old(next) + copies@.len()
                &&& frame_views(frames@) == request_frames(
                    copies@,
                    *old(next),
                    limit,
                    copies@.len(),
                )
                &&& pending_views(pending@) == numbered_copies(copies@, *old(next), copies@.len())
            },
            Err(error) => *old(next) + copies@.len() > u64::MAX && error@
                == BridgeErrorView::TransferIdsExhausted,
        },
{
    let ghost first: u64 = *next;
    let mut frames: Vec<HostFrame> = Vec::new();
    let mut pending: Vec<PendingCopy> = Vec::new();
    let mut i: usize = 0;
    assert(frame_views(frames@) =~= Seq::empty());
    assert(pending_views(pending@) =~= Seq::empty());
    while i < copies.len()
        invariant
            i <= copies@.len(),
            first == *old(next),
            *next == first + i,
            frame_views(frames@) == request_frames(copies@, first, limit, i as nat),
            pending_views(pending@) == numbered_copies(copies@, first, i as nat),
        decreases copies@.len() - i,
    {
        let transfer_id: u64 = match take_transfer_id(next) {
            Ok(id) => id,
            Err(error) => {
                return Err(error);
            },
        };
        let ghost frames_before = frames@;
        let ghost pending_before = pending@;
        frames.push(
            HostFrame::CopyOutRequest {
                transfer_id,
                source: copies[i].source.as_str().to_owned(),
                max_bytes: limit,
            },
        );
        pending.push(
            PendingCopy { transfer_id, destination: copies[i].destination.as_str().to_owned() },
        );
        i += 1;
        assert(frame_views(frames@) =~= frame_views(frames_before).push(
            HostFrameView::CopyOutRequest {
                transfer_id,
                source: copies@[i - 1].source@,
                max_bytes: limit,
            },
        ));
        assert(pending_views(pending@) =~= pending_views(pending_before).push(
            PendingView { transfer_id, destination: copies@[i - 1].destination@ },
        ));
    }
    Ok((frames, pending))
}

/// The conversation with an agent whose command is running.
#[derive(Debug)]
pub struct Bridge {
    pub pending: Vec<PendingCopy>,
    pub active: Option<ReceivedCopy>,
    pub limit: u64,
}

#[verifier::ext_equal]
pub struct BridgeView {
    pub pending: Seq<PendingView>,
    pub active: Option<ReceivedView>,
    pub limit: u64,
}

impl View for Bridge {
    type V = BridgeView;

    open spec fn view(&self) -> BridgeView {
        BridgeView {
            pending: pending_views(self.pending@),
            active: match self.active {
                Some(copy) => Some(copy@),
                None => None,
            },
            limit: self.limit,
        }
    }
}

/// What a frame of the agent leads to.
#[derive(Debug)]
pub enum BridgeAction {
    /// Nothing but the next frame.
    Continue,
    WriteStdout(Vec<u8>),
    WriteStderr(Vec<u8>),
    /// A copy is whole: its archive is to be unpacked.
    Extract { destination: String, archive: Vec<u8> },
    /// The command is over.
    Exit(i32),
}

pub enum BridgeActionView {
    Continue,
    WriteStdout(Seq<u8>),
    WriteStderr(Seq<u8>),
    Extract { destination: Seq<char>, archive: Seq<u8> },
    Exit(i32),
}

impl View for BridgeAction {
    type V = BridgeActionView;

    open spec fn view(&self) -> BridgeActionView {
        match *self {
            BridgeAction::Continue => BridgeActionView::Continue,
            BridgeAction::WriteStdout(data) => BridgeActionView::WriteStdout(data@),
            BridgeAction::WriteStderr(data) => BridgeActionView::WriteStderr(data@),
            BridgeAction::Extract { destination, archive } => BridgeActionView::Extract {
                destination: destination@,
                archive: archive@,
            },
            BridgeAction::Exit(code) => BridgeActionView::Exit(code),
        }
    }
}

/// The first copy of a number, from a position on.
pub open spec fn find_pending(pending: Seq<PendingView>, transfer_id: u64, from: int) -> Option<int>
    decreases pending.len() - from,
{
    if 0 <= from < pending.len() {
        if pending[from].transfer_id == transfer_id {
            Some(from)
        } else {
            find_pending(pending, transfer_id, from + 1)
        }
    } else {
        None
    }
}

impl BridgeView {
    pub open spec fn started(self, transfer_id: u64) -> Result<
        (BridgeView, BridgeActionView),
        BridgeErrorView,
    > {
        if self.active is Some {
            Err(BridgeErrorView::UnexpectedGuestPayload)
        } else {
            match find_pending(self.pending, transfer_id, 0) {
                None => Err(BridgeErrorView::UnexpectedCopyTransfer(transfer_id)),
                Some(at) => Ok(
                    (
                        BridgeView {
                            pending: self.pending.remove(at),
                            active: Some(
                                ReceivedView {
                                    transfer_id,
                                    destination: self.pending[at].destination,
                                    data: Seq::empty(),
                                    limit: self.limit,
                                },
                            ),
                            ..self
                        },
                        BridgeActionView::Continue,
                    ),
                ),
            }
        }
    }

    pub open spec fn grown(self, transfer_id: u64, data: Seq<u8>) -> Result<
        (BridgeView, BridgeActionView),
        BridgeErrorView,
    > {
        match self.active {
            None => Err(BridgeErrorView::UnexpectedGuestPayload),
            Some(copy) => match copy.appended(transfer_id, data) {
                Err(error) => Err(error),
                Ok(after) => Ok(
                    (BridgeView { active: Some(after), ..self }, BridgeActionView::Continue),
                ),
            },
        }
    }

    pub open spec fn ended(self, transfer_id: u64, total_bytes: u64, sha256: Seq<char>) -> Result<
        (BridgeView, BridgeActionView),
        BridgeErrorView,
    > {
        match self.active {
            None => Err(BridgeErrorView::UnexpectedGuestPayload),
            Some(copy) => match copy.end_complaint(transfer_id, total_bytes, sha256) {
                Some(error) => Err(error),
                None => Ok(
                    (
                        BridgeView { active: None, ..self },
                        BridgeActionView::Extract {
                            destination: copy.destination,
                            archive: copy.data,
                        },
                    ),
                ),
            },
        }
    }

    pub open spec fn exited(self, code: i32, signal: Option<i32>) -> Result<
        (BridgeView, BridgeActionView),
        BridgeErrorView,
    > {
        if self.active is Some || self.pending.len() > 0 {
            Err(BridgeErrorView::IncompleteCopyOut)
        } else {
            match exit_complaint(code, signal) {
                Some(error) => Err(BridgeErrorView::InvalidExit(error)),
                None => Ok(
                    (
                        self,
                        BridgeActionView::Exit(
                            match signal {
                                Some(number) => (128 + number) as i32,
                                None => code,
                            },
                        ),
                    ),
                ),
            }
        }
    }

    /// Where a frame of the agent leads, and what is to be done; or what is wrong with it.
    pub open spec fn after(self, frame: GuestFrame) -> Result<
        (BridgeView, BridgeActionView),
        BridgeErrorView,
    > {
        match frame {
            GuestFrame::Output { channel, data } => match channel {
                WireChannel::Known(OutputChannel::Stderr) => Ok(
                    (self, BridgeActionView::WriteStderr(data@)),
                ),
                WireChannel::Known(_) => Ok((self, BridgeActionView::WriteStdout(data@))),
                WireChannel::Unknown(number) => Err(BridgeErrorView::InvalidOutputChannel(number)),
            },
            GuestFrame::CopyOutStart { transfer_id } => self.started(transfer_id),
            GuestFrame::CopyOutChunk { transfer_id, data } => self.grown(transfer_id, data@),
            GuestFrame::CopyOutEnd { transfer_id, total_bytes, sha256 } => {
                self.ended(transfer_id, total_bytes, sha256@)
            },
            GuestFrame::Exit { code, signal } => self.exited(code, signal),
            GuestFrame::Shutdown { reason } => Err(BridgeErrorView::AgentShutdown(reason@)),
            GuestFrame::Hello { .. } | GuestFrame::Other => {
                Err(BridgeErrorView::UnexpectedGuestPayload)
            },
        }
    }
}

impl Bridge {
    /// Begins the conversation: the first frame of an agent says what it can do.
    pub fn begin(hello: GuestFrame, pending: Vec<PendingCopy>, limit: u64) -> (begun: Result<
        Bridge,
        BridgeError,
    >)
        ensures
            match (hello, begun) {
                (GuestFrame::Hello { agent_version, capabilities }, Ok(bridge)) => {
                    &&& hello_complaint(
                        agent_version@,
                        crate::text::strings(capabilities@),
                    ) is None
                    &&& bridge@ == (BridgeView {
                        pending: pending_views(pending@),
                        active: None,
                        limit,
                    })
                },
                (GuestFrame::Hello { agent_version, capabilities }, Err(error)) => {
                    hello_complaint(agent_version@, crate::text::strings(capabilities@)) == Some(
                        error@,
                    )
                },
                (_, Err(error)) => error@ == BridgeErrorView::ExpectedHello,
                (_, Ok(_)) => false,
            },
    {
        match hello {
            GuestFrame::Hello { agent_version, capabilities } => {
                match validate_agent_hello(agent_version.as_str(), &capabilities) {
                    Ok(()) => Ok(Bridge { pending, active: None, limit }),
                    Err(error) => Err(error),
                }
            },
            _ => Err(BridgeError::ExpectedHello),
        }
    }

    fn find(&self, transfer_id: u64) -> (at: Option<usize>)
        ensures
            match (at, find_pending(self@.pending, transfer_id, 0)) {
                (Some(given), Some(expected)) => given == expected && given < self.pending@.len(),
                (None, None) => true,
                _ => false,
            },
    {
        let ghost views = pending_views(self.pending@);
        let mut i: usize = 0;
        while i < self.pending.len()
            invariant
                i <= self.pending@.len(),
                views == pending_views(self.pending@),
                find_pending(views, transfer_id, 0) == find_pending(views, transfer_id, i as int),
            decreases self.pending@.len() - i,
        {
            assert(views[i as int] == self.pending@[i as int]@);
            if self.pending[i].transfer_id == transfer_id {
                return Some(i);
            }
            i += 1;
        }
        None
    }

    /// Takes a frame of the agent.  A frame that is refused ends the conversation.
    pub fn step(&mut self, frame: GuestFrame) -> (action: Result<BridgeAction, BridgeError>)
        ensures
            match (action, old(self)@.after(frame)) {
                (Ok(given), Ok(expected)) => given@ == expected.1 && final(self)@ == expected.0,
                (Err(error), Err(expected)) => error@ == expected,
                _ => false,
            },
    {
        match frame {
            GuestFrame::Output { channel, data } => match channel {
                WireChannel::Known(OutputChannel::Stderr) => Ok(BridgeAction::WriteStderr(data)),
                WireChannel::Known(_) => Ok(BridgeAction::WriteStdout(data)),
                WireChannel::Unknown(number) => Err(BridgeError::InvalidOutputChannel(number)),
            },
            GuestFrame::CopyOutStart { transfer_id } => {
                if self.active.is_some() {
                    return Err(BridgeError::UnexpectedGuestPayload);
                }
                match self.find(transfer_id) {
                    None => Err(BridgeError::UnexpectedCopyTransfer(transfer_id)),
                    Some(at) => {
                        let ghost before = self.pending@;
                        let copy = self.pending.remove(at);
                        assert(pending_views(self.pending@) =~= pending_views(before).remove(
                            at as int,
                        ));
                        self.active =
                        Some(ReceivedCopy::new(transfer_id, copy.destination, self.limit));
                        Ok(BridgeAction::Continue)
                    },
                }
            },
            GuestFrame::CopyOutChunk { transfer_id, data } => match self.active.take() {
                None => Err(BridgeError::UnexpectedGuestPayload),
                Some(copy) => {
                    let mut copy = copy;
                    match copy.append(transfer_id, data.as_slice()) {
                        Err(error) => Err(error),
                        Ok(()) => {
                            self.active = Some(copy);
                            Ok(BridgeAction::Continue)
                        },
                    }
                },
            },
            GuestFrame::CopyOutEnd { transfer_id, total_bytes, sha256 } => {
                match self.active.take() {
                    None => Err(BridgeError::UnexpectedGuestPayload),
                    Some(copy) => match copy.finish(transfer_id, total_bytes, sha256.as_str()) {
                        Err(error) => Err(error),
                        Ok(()) => Ok(
                            BridgeAction::Extract {
                                destination: copy.destination,
                                archive: copy.data,
                            },
                        ),
                    },
                }
            },
            GuestFrame::Exit { code, signal } => {
                assert(self@.pending.len() == self.pending@.len());
                if self.active.is_some() || self.pending.len() > 0 {
                    return Err(BridgeError::IncompleteCopyOut);
                }
                match protocol_exit_code(code, signal) {
                    Ok(number) => Ok(BridgeAction::Exit(number)),
                    Err(error) => Err(error),
                }
            },
            GuestFrame::Shutdown { reason } => Err(BridgeError::AgentShutdown(reason)),
            GuestFrame::Hello { .. } | GuestFrame::Other => {
                Err(BridgeError::UnexpectedGuestPayload)
            },
        }
    }
}

/// A command is reported as over only once every copy that was asked for is whole.
pub proof fn law_exit_needs_every_copy(bridge: BridgeView, frame: GuestFrame)
    ensures
        match bridge.after(frame) {
            Ok((_, BridgeActionView::Exit(code))) => bridge.active is None && bridge.pending.len()
                == 0 && frame is Exit && 0 <= code <= 255,
            _ => true,
        },
{
}

/// Nothing is unpacked but what the guest's own digest and size confirm, for a copy that was asked
/// for.
pub proof fn law_only_confirmed_copies_are_unpacked(bridge: BridgeView, frame: GuestFrame)
    ensures
        match bridge.after(frame) {
            Ok((_, BridgeActionView::Extract { destination, archive })) => {
                &&& bridge.active is Some
                &&& destination == (bridge.active->0).destination
                &&& archive == (bridge.active->0).data
                &&& frame matches GuestFrame::CopyOutEnd { transfer_id, total_bytes, sha256 }
                    && transfer_id == (bridge.active->0).transfer_id && total_bytes
                    == archive.len() && crate::helper::transfer::same_but_case(
                    crate::helper::transfer::digest_spec(archive),
                    sha256@,
                )
            },
            _ => true,
        },
{
}

} // verus!
