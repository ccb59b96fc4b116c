//! The process that becomes a virtual machine: how it is asked to, and how it speaks to the agent
//! inside.

pub mod agent;
pub mod archive;
pub mod bridge;
pub mod conduct;
pub mod environment;
pub mod headers;
pub mod opening;
pub mod places;
pub mod plan;
pub mod transfer;
pub mod tree;
pub mod unpack;
pub mod walk;

use vstd::prelude::*;
use vstd::string::*;

use crate::libkrun::CopySpec;
use crate::libkrun::root::write_code;
use crate::paths::same_path;
use crate::text::{decimal, join, join3, quote, same_text, signed_decimal};

verus! {

/// The port at which the agent of a machine calls.
pub const CONTROL_VSOCK_PORT: u32 = 1070;

pub const GUEST_AGENT_PATH: &'static str = "/.moraebox-agent";

pub const DEFAULT_COPY_LIMIT: u64 = 64 * 1024 * 1024;

#[derive(Debug)]
pub enum HelperError {
    Invalid(String),
    InvalidCopy(String),
    MissingRootApi,
    MissingDiskApi,
    MissingRootDiskApi,
    MissingNetworkApi,
    MissingVsockPortApi,
    Unsupported(String),
    Io(String),
    Debugfs { operation: String, status: Option<i32>, stderr: String },
    GuestAgentVerification(String),
    BridgeThread,
    Load(String),
    /// A zero byte at a position of a text that the machine library would read up to there.
    Nul(usize),
    KrunCall { operation: String, code: i32 },
}

pub enum HelperErrorView {
    Invalid(Seq<char>),
    InvalidCopy(Seq<char>),
    MissingRootApi,
    MissingDiskApi,
    MissingRootDiskApi,
    MissingNetworkApi,
    MissingVsockPortApi,
    Unsupported(Seq<char>),
    Io(Seq<char>),
    Debugfs { operation: Seq<char>, status: Option<i32>, stderr: Seq<char> },
    GuestAgentVerification(Seq<char>),
    BridgeThread,
    Load(Seq<char>),
    Nul(usize),
    KrunCall { operation: Seq<char>, code: i32 },
}

impl View for HelperError {
    type V = HelperErrorView;

    open spec fn view(&self) -> HelperErrorView {
        match *self {
            HelperError::Invalid(text) => HelperErrorView::Invalid(text@),
            HelperError::InvalidCopy(text) => HelperErrorView::InvalidCopy(text@),
            HelperError::MissingRootApi => HelperErrorView::MissingRootApi,
            HelperError::MissingDiskApi => HelperErrorView::MissingDiskApi,
            HelperError::MissingRootDiskApi => HelperErrorView::MissingRootDiskApi,
            HelperError::MissingNetworkApi => HelperErrorView::MissingNetworkApi,
            HelperError::MissingVsockPortApi => HelperErrorView::MissingVsockPortApi,
            HelperError::Unsupported(text) => HelperErrorView::Unsupported(text@),
            HelperError::Io(text) => HelperErrorView::Io(text@),
            HelperError::Debugfs { operation, status, stderr } => HelperErrorView::Debugfs {
                operation: operation@,
                status,
                stderr: stderr@,
            },
            HelperError::GuestAgentVerification(text) => {
                HelperErrorView::GuestAgentVerification(text@)
            },
            HelperError::BridgeThread => HelperErrorView::BridgeThread,
            HelperError::Load(text) => HelperErrorView::Load(text@),
            HelperError::Nul(position) => HelperErrorView::Nul(position),
            HelperError::KrunCall { operation, code } => HelperErrorView::KrunCall {
                operation: operation@,
                code,
            },
        }
    }
}

impl HelperErrorView {
    pub open spec fn text(self) -> Seq<char> {
        match self {
            HelperErrorView::Invalid(text) => "invalid helper request: "@ + text,
            HelperErrorView::InvalidCopy(text) => "invalid copy request: "@ + text,
            HelperErrorView::MissingRootApi => {
                "libkrun has neither krun_set_root nor krun_add_virtiofs3"@
            },
            HelperErrorView::MissingDiskApi => {
                "libkrun does not provide krun_add_disk required for workspace isolation"@
            },
            HelperErrorView::MissingRootDiskApi => {
                "libkrun does not provide krun_set_root_disk_remount required for block root"@
            },
            HelperErrorView::MissingNetworkApi => {
                "libkrun does not provide krun_add_net_unixgram required for network access"@
            },
            HelperErrorView::MissingVsockPortApi => {
                "libkrun does not provide krun_add_vsock_port required for guest control"@
            },
            HelperErrorView::Unsupported(text) => "host platform is unsupported: "@ + text,
            HelperErrorView::Io(text) => "helper I/O failed: "@ + text,
            HelperErrorView::Debugfs { operation, status, stderr } => {
                "debugfs failed to "@ + operation + " with status "@
                    + crate::libkrun::root::code_text(status) + ": "@ + stderr
            },
            HelperErrorView::GuestAgentVerification(text) => {
                "guest agent verification failed: "@ + text
            },
            HelperErrorView::BridgeThread => "host/guest protocol thread panicked"@,
            HelperErrorView::Load(text) => "failed to load libkrun symbol: "@ + text,
            HelperErrorView::Nul(position) => {
                "string contains an interior NUL byte: nul byte found in provided data at position: "@
                    + crate::text::decimal_text(position as nat)
            },
            HelperErrorView::KrunCall { operation, code } => {
                operation + " failed with libkrun error "@ + crate::text::signed_text(code as int)
            },
        }
    }
}

impl HelperError {
    pub fn message(&self) -> (text: String)
        ensures
            text@ == self@.text(),
    {
        match self {
            HelperError::Invalid(text) => join("invalid helper request: ", text.as_str()),
            HelperError::InvalidCopy(text) => join("invalid copy request: ", text.as_str()),
            HelperError::MissingRootApi => {
                "libkrun has neither krun_set_root nor krun_add_virtiofs3".to_owned()
            },
            HelperError::MissingDiskApi => {
                "libkrun does not provide krun_add_disk required for workspace isolation".to_owned()
            },
            HelperError::MissingRootDiskApi => {
                "libkrun does not provide krun_set_root_disk_remount required for block root".to_owned()
            },
            HelperError::MissingNetworkApi => {
                "libkrun does not provide krun_add_net_unixgram required for network access".to_owned()
            },
            HelperError::MissingVsockPortApi => {
                "libkrun does not provide krun_add_vsock_port required for guest control".to_owned()
            },
            HelperError::Unsupported(text) => join("host platform is unsupported: ", text.as_str()),
            HelperError::Io(text) => join("helper I/O failed: ", text.as_str()),
            HelperError::Debugfs { operation, status, stderr } => {
                let mut text = join("debugfs failed to ", operation.as_str());
                text.append(" with status ");
                text.append(write_code(*status).as_str());
                text.append(": ");
                text.append(stderr.as_str());
                text
            },
            HelperError::GuestAgentVerification(text) => join(
                "guest agent verification failed: ",
                text.as_str(),
            ),
            HelperError::BridgeThread => "host/guest protocol thread panicked".to_owned(),
            HelperError::Load(text) => join("failed to load libkrun symbol: ", text.as_str()),
            HelperError::Nul(position) => join(
                "string contains an interior NUL byte: nul byte found in provided data at position: ",
                decimal(*position as u64).as_str(),
            ),
            HelperError::KrunCall { operation, code } => join3(
                operation.as_str(),
                " failed with libkrun error ",
                signed_decimal(*code).as_str(),
            ),
        }
    }
}

/// What the helper is asked to run.
#[derive(Debug)]
pub struct HelperRequest {
    pub root: Option<String>,
    pub root_disk: Option<String>,
    pub debugfs: Option<String>,
    pub session_id: Option<String>,
    pub cpus: u8,
    pub memory_mib: u32,
    pub cwd: Option<String>,
    pub workspace_disk: Option<String>,
    pub workspace_writable: bool,
    pub network_socket: Option<String>,
    pub tty: bool,
    pub tty_rows: u16,
    pub tty_cols: u16,
    pub environment: Vec<(String, String)>,
    pub copy_in_sources: Vec<String>,
    pub copy_in_destinations: Vec<String>,
    pub copy_out_sources: Vec<String>,
    pub copy_out_destinations: Vec<String>,
    pub copy_limit_bytes: u64,
    pub command: Vec<String>,
}

/// What is at a path that is to be copied in.
#[derive(Debug)]
pub enum SourceKind {
    File,
    Directory,
    Symlink,
    Other,
    Missing(String),
}

/// What was found out about the copies of a request.
#[derive(Debug)]
pub struct CopyFacts {
    /// For each copy into the guest, what is wrong with its destination, and what its source is.
    pub copy_in: Vec<(Option<String>, SourceKind)>,
    /// For each copy out of the guest, what is wrong with its source, and whether its destination
    /// exists.
    pub copy_out: Vec<(Option<String>, bool)>,
    /// The most bytes that one copy may have.
    pub max_transfer: u64,
}

/// Why a request cannot be met, whatever its copies are.
pub open spec fn basic_complaint(request: HelperRequest) -> Option<HelperErrorView> {
    if request.command@.len() == 0 || request.command@[0]@.len() == 0 {
        Some(HelperErrorView::Invalid("command must not be empty"@))
    } else if request.cpus == 0 || request.memory_mib == 0 {
        Some(HelperErrorView::Invalid("CPU and memory limits must be non-zero"@))
    } else if request.tty && (request.tty_rows == 0 || request.tty_cols == 0) {
        Some(HelperErrorView::Invalid("terminal rows and columns must be non-zero"@))
    } else {
        None
    }
}

/// Whether a text occurs among the first of some texts.
pub open spec fn occurs_before(texts: Seq<String>, upto: int, text: Seq<char>) -> bool {
    exists|j: int| 0 <= j < upto && (#[trigger] texts[j])@ == text
}

/// Whether a path occurs among the first of some paths.
pub open spec fn path_before(paths: Seq<String>, upto: int, path: Seq<char>) -> bool {
    exists|j: int| 0 <= j < upto && crate::paths::same_path_spec((#[trigger] paths[j])@, path)
}

/// What is wrong with one copy into the guest.
pub open spec fn copy_in_fault(request: HelperRequest, facts: CopyFacts, i: int) -> Option<
    Seq<char>,
> {
    let source = request.copy_in_sources@[i]@;
    let destination = request.copy_in_destinations@[i]@;
    if facts.copy_in@[i].0 is Some {
        Some(facts.copy_in@[i].0->0@)
    } else if occurs_before(request.copy_in_destinations@, i, destination) {
        Some("duplicate guest copy-in destination "@ + crate::text::quoted_text(destination))
    } else {
        match facts.copy_in@[i].1 {
            SourceKind::Missing(error) => Some("cannot inspect "@ + source + (": "@ + error@)),
            SourceKind::Symlink | SourceKind::Other => Some(
                "copy-in source must be a regular file or directory: "@ + source,
            ),
            SourceKind::File | SourceKind::Directory => None,
        }
    }
}

/// What is wrong with one copy out of the guest.
pub open spec fn copy_out_fault(request: HelperRequest, facts: CopyFacts, i: int) -> Option<
    Seq<char>,
> {
    let destination = request.copy_out_destinations@[i]@;
    if facts.copy_out@[i].0 is Some {
        Some(facts.copy_out@[i].0->0@)
    } else if !crate::paths::is_absolute(destination) {
        Some("copy-out destination must be absolute: "@ + destination)
    } else if path_before(request.copy_out_destinations@, i, destination) {
        Some("duplicate host copy-out destination "@ + destination)
    } else if facts.copy_out@[i].1 {
        Some("copy-out destination already exists: "@ + destination)
    } else {
        None
    }
}

/// The first fault of the copies into the guest from `from` on.
pub open spec fn copy_in_faults(request: HelperRequest, facts: CopyFacts, from: int) -> Option<
    Seq<char>,
>
    decreases request.copy_in_sources@.len() - from,
{
    if 0 <= from < request.copy_in_sources@.len() {
        match copy_in_fault(request, facts, from) {
            Some(fault) => Some(fault),
            None => copy_in_faults(request, facts, from + 1),
        }
    } else {
        None
    }
}

/// The first fault of the copies out of the guest from `from` on.
pub open spec fn copy_out_faults(request: HelperRequest, facts: CopyFacts, from: int) -> Option<
    Seq<char>,
>
    decreases request.copy_out_sources@.len() - from,
{
    if 0 <= from < request.copy_out_sources@.len() {
        match copy_out_fault(request, facts, from) {
            Some(fault) => Some(fault),
            None => copy_out_faults(request, facts, from + 1),
        }
    } else {
        None
    }
}

/// What is wrong with the copies of a request, if anything.
pub open spec fn copy_complaint(request: HelperRequest, facts: CopyFacts) -> Option<Seq<char>> {
    if request.copy_in_sources@.len() != request.copy_in_destinations@.len() {
        Some("--copy-in-source and --copy-in-destination counts differ"@)
    } else if request.copy_out_sources@.len() != request.copy_out_destinations@.len() {
        Some("--copy-out-source and --copy-out-destination counts differ"@)
    } else if request.copy_limit_bytes == 0 || request.copy_limit_bytes > facts.max_transfer {
        Some(
            "--copy-limit-bytes must be in 1..="@ + crate::text::decimal_text(
                facts.max_transfer as nat,
            ),
        )
    } else {
        match copy_in_faults(request, facts, 0) {
            Some(fault) => Some(fault),
            None => copy_out_faults(request, facts, 0),
        }
    }
}

/// Copies that can be made.
#[derive(Debug)]
pub struct ValidatedTransfers {
    pub copy_in: Vec<CopySpec>,
    pub copy_out: Vec<CopySpec>,
}

/// Sources and destinations side by side.
pub open spec fn pairs_up(copies: Seq<CopySpec>, sources: Seq<String>, destinations: Seq<String>) -> bool {
    &&& copies.len() == sources.len()
    &&& forall|i: int|
        0 <= i < copies.len() ==> (#[trigger] copies[i]).source@ == sources[i]@
            && copies[i].destination@ == destinations[i]@
}

fn occurs(texts: &Vec<String>, upto: usize, text: &str) -> (found: bool)
    requires
        upto <= texts@.len(),
    ensures
        found == occurs_before(texts@, upto as int, text@),
{
    let mut j: usize = 0;
    while j < upto
        invariant
            j <= upto <= texts@.len(),
            forall|k: int| 0 <= k < j ==> (#[trigger] texts@[k])@ != text@,
        decreases upto - j,
    {
        if same_text(texts[j].as_str(), text) {
            assert(texts@[j as int]@ == text@);
            return true;
        }
        j += 1;
    }
    false
}

fn path_occurs(paths: &Vec<String>, upto: usize, path: &str) -> (found: bool)
    requires
        upto <= paths@.len(),
    ensures
        found == path_before(paths@, upto as int, path@),
{
    let mut j: usize = 0;
    while j < upto
        invariant
            j <= upto <= paths@.len(),
            forall|k: int|
                0 <= k < j ==> !crate::paths::same_path_spec((#[trigger] paths@[k])@, path@),
        decreases upto - j,
    {
        if same_path(paths[j].as_str(), path) {
            assert(crate::paths::same_path_spec(paths@[j as int]@, path@));
            return true;
        }
        j += 1;
    }
    false
}

impl HelperRequest {
    /// Whether the copies can be made.
    pub fn validate_copy_arguments(&self, facts: &CopyFacts) -> (validated: Result<
        ValidatedTransfers,
        HelperError,
    >)
        requires
            facts.copy_in@.len() == self.copy_in_sources@.len(),
            facts.copy_out@.len() == self.copy_out_sources@.len(),
        ensures
            match validated {
                Ok(transfers) => {
                    &&& copy_complaint(*self, *facts) is None
                    &&& pairs_up(
                        transfers.copy_in@,
                        self.copy_in_sources@,
                        self.copy_in_destinations@,
                    )
                    &&& pairs_up(
                        transfers.copy_out@,
                        self.copy_out_sources@,
                        self.copy_out_destinations@,
                    )
                },
                Err(error) => copy_complaint(*self, *facts) is Some && error@
                    == HelperErrorView::InvalidCopy(copy_complaint(*self, *facts)->0),
            },
    {
        if self.copy_in_sources.len() != self.copy_in_destinations.len() {
            return Err(
                HelperError::InvalidCopy(
                    "--copy-in-source and --copy-in-destination counts differ".to_owned(),
                ),
            );
        }
        if self.copy_out_sources.len() != self.copy_out_destinations.len() {
            return Err(
                HelperError::InvalidCopy(
                    "--copy-out-source and --copy-out-destination counts differ".to_owned(),
                ),
            );
        }
        if self.copy_limit_bytes == 0 || self.copy_limit_bytes > facts.max_transfer {
            return Err(
                HelperError::InvalidCopy(
                    join(
                        "--copy-limit-bytes must be in 1..=",
                        decimal(facts.max_transfer).as_str(),
                    ),
                ),
            );
        }
        let mut copy_in: Vec<CopySpec> = Vec::new();
        let mut i: usize = 0;
        while i < self.copy_in_sources.len()
            invariant
                i <= self.copy_in_sources@.len(),
                self.copy_in_sources@.len() == self.copy_in_destinations@.len(),
                self.copy_out_sources@.len() == self.copy_out_destinations@.len(),
                0 < self.copy_limit_bytes <= facts.max_transfer,
                facts.copy_in@.len() == self.copy_in_sources@.len(),
                copy_in@.len() == i,
                forall|k: int|
                    0 <= k < i ==> (#[trigger] copy_in@[k]).source@ == self.copy_in_sources@[k]@
                        && copy_in@[k].destination@ == self.copy_in_destinations@[k]@,
                copy_in_faults(*self, *facts, 0) == copy_in_faults(*self, *facts, i as int),
            decreases self.copy_in_sources@.len() - i,
        {
            match self.copy_in_error(facts, i) {
                Some(fault) => {
                    return Err(HelperError::InvalidCopy(fault));
                },
                None => {},
            }
            copy_in.push(
                CopySpec {
                    source: self.copy_in_sources[i].as_str().to_owned(),
                    destination: self.copy_in_destinations[i].as_str().to_owned(),
                },
            );
            i += 1;
        }
        let mut copy_out: Vec<CopySpec> = Vec::new();
        let mut o: usize = 0;
        while o < self.copy_out_sources.len()
            invariant
                o <= self.copy_out_sources@.len(),
                self.copy_in_sources@.len() == self.copy_in_destinations@.len(),
                self.copy_out_sources@.len() == self.copy_out_destinations@.len(),
                0 < self.copy_limit_bytes <= facts.max_transfer,
                facts.copy_out@.len() == self.copy_out_sources@.len(),
                copy_in_faults(*self, *facts, 0) is None,
                copy_out@.len() == o,
                forall|k: int|
                    0 <= k < o ==> (#[trigger] copy_out@[k]).source@ == self.copy_out_sources@[k]@
                        && copy_out@[k].destination@ == self.copy_out_destinations@[k]@,
                copy_out_faults(*self, *facts, 0) == copy_out_faults(*self, *facts, o as int),
            decreases self.copy_out_sources@.len() - o,
        {
            match self.copy_out_error(facts, o) {
                Some(fault) => {
                    return Err(HelperError::InvalidCopy(fault));
                },
                None => {},
            }
            copy_out.push(
                CopySpec {
                    source: self.copy_out_sources[o].as_str().to_owned(),
                    destination: self.copy_out_destinations[o].as_str().to_owned(),
                },
            );
            o += 1;
        }
        Ok(ValidatedTransfers { copy_in, copy_out })
    }

    fn copy_in_error(&self, facts: &CopyFacts, i: usize) -> (fault: Option<String>)
        requires
            i < self.copy_in_sources@.len(),
            self.copy_in_sources@.len() == self.copy_in_destinations@.len(),
            facts.copy_in@.len() == self.copy_in_sources@.len(),
        ensures
            crate::text::text_of(fault) == copy_in_fault(*self, *facts, i as int),
    {
        match &facts.copy_in[i].0 {
            Some(error) => {
                return Some(error.as_str().to_owned());
            },
            None => {},
        }
        let source = self.copy_in_sources[i].as_str();
        let destination = self.copy_in_destinations[i].as_str();
        if occurs(&self.copy_in_destinations, i, destination) {
            return Some(
                join("duplicate guest copy-in destination ", quote(destination).as_str()),
            );
        }
        match &facts.copy_in[i].1 {
            SourceKind::Missing(error) => Some(
                join3("cannot inspect ", source, join(": ", error.as_str()).as_str()),
            ),
            SourceKind::Symlink | SourceKind::Other => Some(
                join("copy-in source must be a regular file or directory: ", source),
            ),
            SourceKind::File | SourceKind::Directory => None,
        }
    }

    fn copy_out_error(&self, facts: &CopyFacts, i: usize) -> (fault: Option<String>)
        requires
            i < self.copy_out_sources@.len(),
            self.copy_out_sources@.len() == self.copy_out_destinations@.len(),
            facts.copy_out@.len() == self.copy_out_sources@.len(),
        ensures
            crate::text::text_of(fault) == copy_out_fault(*self, *facts, i as int),
    {
        match &facts.copy_out[i].0 {
            Some(error) => {
                return Some(error.as_str().to_owned());
            },
            None => {},
        }
        let destination = self.copy_out_destinations[i].as_str();
        if destination.unicode_len() == 0 || destination.get_char(0) != '/' {
            return Some(join("copy-out destination must be absolute: ", destination));
        }
        if path_occurs(&self.copy_out_destinations, i, destination) {
            return Some(join("duplicate host copy-out destination ", destination));
        }
        if facts.copy_out[i].1 {
            return Some(join("copy-out destination already exists: ", destination));
        }
        None
    }

    /// Whether the request can be met, before anything is prepared.
    pub fn check(&self, facts: &CopyFacts) -> (checked: Result<ValidatedTransfers, HelperError>)
        requires
            facts.copy_in@.len() == self.copy_in_sources@.len(),
            facts.copy_out@.len() == self.copy_out_sources@.len(),
        ensures
            match checked {
                Ok(transfers) => {
                    &&& request_complaint(*self, *facts) is None
                    &&& pairs_up(
                        transfers.copy_in@,
                        self.copy_in_sources@,
                        self.copy_in_destinations@,
                    )
                    &&& pairs_up(
                        transfers.copy_out@,
                        self.copy_out_sources@,
                        self.copy_out_destinations@,
                    )
                },
                Err(error) => request_complaint(*self, *facts) == Some(error@),
            },
    {
        if self.command.len() == 0 || self.command[0].as_str().unicode_len() == 0 {
            return Err(HelperError::Invalid("command must not be empty".to_owned()));
        }
        if self.cpus == 0 || self.memory_mib == 0 {
            return Err(HelperError::Invalid("CPU and memory limits must be non-zero".to_owned()));
        }
        if self.tty && (self.tty_rows == 0 || self.tty_cols == 0) {
            return Err(
                HelperError::Invalid("terminal rows and columns must be non-zero".to_owned()),
            );
        }
        let transfers = match self.validate_copy_arguments(facts) {
            Ok(transfers) => transfers,
            Err(error) => {
                return Err(error);
            },
        };
        if self.workspace_disk.is_some() && self.root_disk.is_none() {
            return Err(
                HelperError::Unsupported(
                    "workspace mounting requires a block root and the guest control agent".to_owned(),
                ),
            );
        }
        if self.root_disk.is_some() {
            if self.debugfs.is_none() {
                return Err(
                    HelperError::Invalid("--debugfs is required with --root-disk".to_owned()),
                );
            }
            match &self.session_id {
                None => {
                    return Err(
                        HelperError::Invalid("--session-id is required with --root-disk".to_owned()),
                    );
                },
                Some(session_id) => {
                    if session_id.as_str().unicode_len() == 0 {
                        return Err(HelperError::Invalid("session ID must not be empty".to_owned()));
                    }
                },
            }
        }
        Ok(transfers)
    }

    /// The directory in which the command is run.
    pub open spec fn directory_spec(&self) -> Seq<char> {
        match self.cwd {
            Some(path) => path@,
            None => if self.workspace_disk is Some {
                "/workspace"@
            } else {
                Seq::empty()
            },
        }
    }

    /// The directory in which the command is run: the workspace, where there is one and no other
    /// was asked for.
    pub fn working_directory(&self) -> (path: String)
        ensures
            path@ == self.directory_spec(),
            path@ == (match self.cwd {
                Some(path) => path@,
                None => if self.workspace_disk is Some {
                    "/workspace"@
                } else {
                    Seq::empty()
                },
            }),
    {
        match &self.cwd {
            Some(path) => path.as_str().to_owned(),
            None => {
                if self.workspace_disk.is_some() {
                    "/workspace".to_owned()
                } else {
                    let empty = String::new();
                    assert(empty@ =~= Seq::empty());
                    empty
                }
            },
        }
    }
}

/// Why a request cannot be met, if it cannot: the first thing that is wrong.
pub open spec fn request_complaint(request: HelperRequest, facts: CopyFacts) -> Option<
    HelperErrorView,
> {
    if basic_complaint(request) is Some {
        basic_complaint(request)
    } else if copy_complaint(request, facts) is Some {
        Some(HelperErrorView::InvalidCopy(copy_complaint(request, facts)->0))
    } else if request.workspace_disk is Some && request.root_disk is None {
        Some(
            HelperErrorView::Unsupported(
                "workspace mounting requires a block root and the guest control agent"@,
            ),
        )
    } else if request.root_disk is Some && request.debugfs is None {
        Some(HelperErrorView::Invalid("--debugfs is required with --root-disk"@))
    } else if request.root_disk is Some && request.session_id is None {
        Some(HelperErrorView::Invalid("--session-id is required with --root-disk"@))
    } else if request.root_disk is Some && request.session_id->0@.len() == 0 {
        Some(HelperErrorView::Invalid("session ID must not be empty"@))
    } else {
        None
    }
}

/// The code within what a process can exit with that is nearest to a code.
pub open spec fn clamped_code(code: i32) -> u8 {
    if code < 0 {
        0
    } else if code > 255 {
        255
    } else {
        code as u8
    }
}

/// The exit code of the helper, within what a process can exit with.
pub fn exit_code(code: i32) -> (clamped: u8)
    ensures
        clamped == clamped_code(code),
        clamped == (if code < 0 {
            0
        } else if code > 255 {
            255
        } else {
            code as int
        }),
{
    if code < 0 {
        0
    } else if code > 255 {
        255
    } else {
        code as u8
    }
}

} // verus!
