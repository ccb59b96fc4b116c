//! The calls that configure a machine, in the order in which they are made.

use vstd::prelude::*;
use vstd::string::*;

use crate::helper::environment::effective_environment;
use crate::helper::{
    HelperError, HelperErrorView, HelperRequest, CONTROL_VSOCK_PORT, GUEST_AGENT_PATH,
};
use crate::text::{decimal, find_byte};

verus! {

/// The window through which a directory root is mapped into the guest.
pub const DEFAULT_DAX_WINDOW: u64 = 256 * 1024 * 1024;

/// Checksum and segmentation offloads.
pub const NETWORK_FEATURES: u32 = 0x4c83;

/// Datagrams framed as the proxy frames them.
pub const NET_FLAG_VFKIT: u32 = 1;

pub const NET_FLAG_DHCP_CLIENT: u32 = 2;

pub const NETWORK_FLAGS: u32 = 3;

/// The hardware address of a machine.
pub fn network_mac() -> (mac: [u8; 6])
    ensures
        mac@ == seq![0x5au8, 0x94u8, 0xefu8, 0xe4u8, 0x0cu8, 0xeeu8],
{
    let mac: [u8; 6] = [0x5a, 0x94, 0xef, 0xe4, 0x0c, 0xee];
    assert(mac@ =~= seq![0x5au8, 0x94u8, 0xefu8, 0xe4u8, 0x0cu8, 0xeeu8]);
    mac
}

/// The functions that not every machine library has.
#[derive(Debug, Clone, Copy, PartialEq, Eq, Structural)]
pub struct KrunSymbols {
    pub set_root: bool,
    pub add_virtiofs3: bool,
    pub disable_implicit_vsock: bool,
    pub add_vsock_port: bool,
    pub add_net_unixgram: bool,
    pub add_disk: bool,
    pub set_root_disk_remount: bool,
    pub disable_implicit_console: bool,
    pub add_virtio_console_default: bool,
}

/// A call of the machine library.
#[derive(Debug)]
pub enum KrunCall {
    SetVmConfig { cpus: u8, memory_mib: u32 },
    SetRoot(String),
    /// The root as a shared directory.
    AddVirtiofs(String),
    /// A disk that can be written to.
    AddRootDisk(String),
    /// The first disk, `/dev/vda`, with `ext4` on it, becomes the root.
    SetRootDiskRemount,
    DisableImplicitVsock,
    /// A socket device that forwards nothing by itself.
    AddVsock,
    AddVsockPort { port: u32, path: String },
    AddNetwork(String),
    DisableImplicitConsole,
    AddConsole { input: i32, output: i32, error: i32 },
    /// A disk that cannot be written to.
    AddWorkspaceDisk(String),
    SetWorkdir(String),
    SetExec { executable: String, arguments: Vec<String>, environment: Vec<String> },
}

pub enum KrunCallView {
    SetVmConfig { cpus: u8, memory_mib: u32 },
    SetRoot(Seq<char>),
    AddVirtiofs(Seq<char>),
    AddRootDisk(Seq<char>),
    SetRootDiskRemount,
    DisableImplicitVsock,
    AddVsock,
    AddVsockPort { port: u32, path: Seq<char> },
    AddNetwork(Seq<char>),
    DisableImplicitConsole,
    AddConsole { input: i32, output: i32, error: i32 },
    AddWorkspaceDisk(Seq<char>),
    SetWorkdir(Seq<char>),
    SetExec { executable: Seq<char>, arguments: Seq<Seq<char>>, environment: Seq<Seq<char>> },
}

impl View for KrunCall {
    type V = KrunCallView;

    open spec fn view(&self) -> KrunCallView {
        match *self {
            KrunCall::SetVmConfig { cpus, memory_mib } => KrunCallView::SetVmConfig {
                cpus,
                memory_mib,
            },
            KrunCall::SetRoot(path) => KrunCallView::SetRoot(path@),
            KrunCall::AddVirtiofs(path) => KrunCallView::AddVirtiofs(path@),
            KrunCall::AddRootDisk(path) => KrunCallView::AddRootDisk(path@),
            KrunCall::SetRootDiskRemount => KrunCallView::SetRootDiskRemount,
            KrunCall::DisableImplicitVsock => KrunCallView::DisableImplicitVsock,
            KrunCall::AddVsock => KrunCallView::AddVsock,
            KrunCall::AddVsockPort { port, path } => KrunCallView::AddVsockPort {
                port,
                path: path@,
            },
            KrunCall::AddNetwork(path) => KrunCallView::AddNetwork(path@),
            KrunCall::DisableImplicitConsole => KrunCallView::DisableImplicitConsole,
            KrunCall::AddConsole { input, output, error } => KrunCallView::AddConsole {
                input,
                output,
                error,
            },
            KrunCall::AddWorkspaceDisk(path) => KrunCallView::AddWorkspaceDisk(path@),
            KrunCall::SetWorkdir(path) => KrunCallView::SetWorkdir(path@),
            KrunCall::SetExec { executable, arguments, environment } => KrunCallView::SetExec {
                executable: executable@,
                arguments: crate::text::strings(arguments@),
                environment: crate::text::strings(environment@),
            },
        }
    }
}

impl KrunCallView {
    /// The name of a call in messages.
    pub open spec fn operation(self) -> Seq<char> {
        match self {
            KrunCallView::SetVmConfig { .. } => "krun_set_vm_config"@,
            KrunCallView::SetRoot(_) => "krun_set_root"@,
            KrunCallView::AddVirtiofs(_) => "krun_add_virtiofs3(root)"@,
            KrunCallView::AddRootDisk(_) => "krun_add_disk(root, read_only=false)"@,
            KrunCallView::SetRootDiskRemount => "krun_set_root_disk_remount(/dev/vda, ext4)"@,
            KrunCallView::DisableImplicitVsock => "krun_disable_implicit_vsock"@,
            KrunCallView::AddVsock => "krun_add_vsock(tsi=0)"@,
            KrunCallView::AddVsockPort { .. } => "krun_add_vsock_port(control)"@,
            KrunCallView::AddNetwork(_) => "krun_add_net_unixgram(gvproxy)"@,
            KrunCallView::DisableImplicitConsole => "krun_disable_implicit_console"@,
            KrunCallView::AddConsole { .. } => "krun_add_virtio_console_default"@,
            KrunCallView::AddWorkspaceDisk(_) => "krun_add_disk(workspace, read_only=true)"@,
            KrunCallView::SetWorkdir(_) => "krun_set_workdir"@,
            KrunCallView::SetExec { .. } => "krun_set_exec"@,
        }
    }
}

impl KrunCall {
    /// The name of the call in messages.
    pub fn operation(&self) -> (name: &'static str)
        ensures
            name@ == self@.operation(),
    {
        match self {
            KrunCall::SetVmConfig { .. } => "krun_set_vm_config",
            KrunCall::SetRoot(_) => "krun_set_root",
            KrunCall::AddVirtiofs(_) => "krun_add_virtiofs3(root)",
            KrunCall::AddRootDisk(_) => "krun_add_disk(root, read_only=false)",
            KrunCall::SetRootDiskRemount => "krun_set_root_disk_remount(/dev/vda, ext4)",
            KrunCall::DisableImplicitVsock => "krun_disable_implicit_vsock",
            KrunCall::AddVsock => "krun_add_vsock(tsi=0)",
            KrunCall::AddVsockPort { .. } => "krun_add_vsock_port(control)",
            KrunCall::AddNetwork(_) => "krun_add_net_unixgram(gvproxy)",
            KrunCall::DisableImplicitConsole => "krun_disable_implicit_console",
            KrunCall::AddConsole { .. } => "krun_add_virtio_console_default",
            KrunCall::AddWorkspaceDisk(_) => "krun_add_disk(workspace, read_only=true)",
            KrunCall::SetWorkdir(_) => "krun_set_workdir",
            KrunCall::SetExec { .. } => "krun_set_exec",
        }
    }
}

/// What is wrong with what a call of the machine library returned, if anything.
pub open spec fn call_complaint(operation: Seq<char>, result: i32) -> Option<HelperErrorView> {
    if result < 0 {
        Some(HelperErrorView::KrunCall { operation, code: result })
    } else {
        None
    }
}

/// Judges what a call of the machine library returned.
pub fn check_call(operation: &str, result: i32) -> (checked: Result<(), HelperError>)
    ensures
        match checked {
            Ok(()) => call_complaint(operation@, result) is None,
            Err(error) => call_complaint(operation@, result) == Some(error@),
        },
        match checked {
            Ok(()) => result >= 0,
            Err(error) => result < 0 && error@ == (HelperErrorView::KrunCall {
                operation: operation@,
                code: result,
            }),
        },
{
    if result < 0 {
        Err(HelperError::KrunCall { operation: operation.to_owned(), code: result })
    } else {
        Ok(())
    }
}

/// What the machine comes to.
pub open spec fn machine_outcome(result: i32, bridge_failed: bool) -> Result<i32, HelperErrorView> {
    match call_complaint("krun_start_enter"@, result) {
        Some(error) => Err(error),
        None => if bridge_failed {
            Err(HelperErrorView::BridgeThread)
        } else {
            Ok(result)
        },
    }
}

/// What the machine comes to: `bridge_failed` tells that the thread that speaks to its agent
/// ended badly.
pub fn start_result(result: i32, bridge_failed: bool) -> (outcome: Result<i32, HelperError>)
    ensures
        match (outcome, machine_outcome(result, bridge_failed)) {
            (Ok(code), Ok(expected)) => code == expected,
            (Err(error), Err(expected)) => error@ == expected,
            _ => false,
        },
        match outcome {
            Ok(code) => result >= 0 && !bridge_failed && code == result,
            Err(error) => if result < 0 {
                error@ == (HelperErrorView::KrunCall {
                    operation: "krun_start_enter"@,
                    code: result,
                })
            } else {
                bridge_failed && error@ == HelperErrorView::BridgeThread
            },
        },
{
    match check_call("krun_start_enter", result) {
        Err(error) => Err(error),
        Ok(()) => {
            if bridge_failed {
                Err(HelperError::BridgeThread)
            } else {
                Ok(result)
            }
        },
    }
}

/// Calls, and what comes after them: an error, if the configuration cannot go on.
#[derive(Debug)]
pub struct Plan {
    pub calls: Vec<KrunCall>,
    pub failure: Option<HelperError>,
}

#[verifier::ext_equal]
pub struct PlanView {
    pub calls: Seq<KrunCallView>,
    pub failure: Option<HelperErrorView>,
}

pub open spec fn call_views(calls: Seq<KrunCall>) -> Seq<KrunCallView> {
    calls.map_values(|call: KrunCall| call@)
}

impl View for Plan {
    type V = PlanView;

    open spec fn view(&self) -> PlanView {
        PlanView {
            calls: call_views(self.calls@),
            failure: match self.failure {
                Some(error) => Some(error@),
                None => None,
            },
        }
    }
}

impl PlanView {
    /// This plan, and then another, if this one does not end in an error.
    pub open spec fn followed_by(self, next: PlanView) -> PlanView {
        if self.failure is Some {
            self
        } else {
            PlanView { calls: self.calls + next.calls, failure: next.failure }
        }
    }
}

pub open spec fn calls_only(calls: Seq<KrunCallView>) -> PlanView {
    PlanView { calls, failure: None }
}

pub open spec fn fails_with(error: HelperErrorView) -> PlanView {
    PlanView { calls: Seq::empty(), failure: Some(error) }
}

impl Plan {
    fn none() -> (plan: Plan)
        ensures
            plan@ == calls_only(Seq::empty()),
    {
        let calls: Vec<KrunCall> = Vec::new();
        assert(call_views(calls@) =~= Seq::empty());
        Plan { calls, failure: None }
    }

    fn one(call: KrunCall) -> (plan: Plan)
        ensures
            plan@ == calls_only(seq![call@]),
    {
        let mut calls: Vec<KrunCall> = Vec::new();
        calls.push(call);
        assert(call_views(calls@) =~= seq![call@]);
        Plan { calls, failure: None }
    }

    fn two(first: KrunCall, second: KrunCall) -> (plan: Plan)
        ensures
            plan@ == calls_only(seq![first@, second@]),
    {
        let mut calls: Vec<KrunCall> = Vec::new();
        calls.push(first);
        calls.push(second);
        assert(call_views(calls@) =~= seq![first@, second@]);
        Plan { calls, failure: None }
    }

    fn error(error: HelperError) -> (plan: Plan)
        ensures
            plan@ == fails_with(error@),
    {
        let calls: Vec<KrunCall> = Vec::new();
        assert(call_views(calls@) =~= Seq::empty());
        Plan { calls, failure: Some(error) }
    }

    fn chain(self, next: Plan) -> (plan: Plan)
        ensures
            plan@ == self@.followed_by(next@),
    {
        if self.failure.is_some() {
            return self;
        }
        let mut calls = self.calls;
        let mut more = next.calls;
        calls.append(&mut more);
        assert(call_views(calls@) =~= call_views(self.calls@) + call_views(next.calls@));
        Plan { calls, failure: next.failure }
    }
}

/// The position of the first zero byte of a text, if there is one.
pub open spec fn nul_in(text: Seq<char>) -> Option<usize> {
    let bytes = vstd::utf8::encode_utf8(text);
    let at = crate::text::find_from(bytes, 0, 0);
    if at < bytes.len() {
        Some(at as usize)
    } else {
        None
    }
}

/// Looks for a zero byte in a text.
pub fn find_nul(text: &str) -> (position: Option<usize>)
    ensures
        position == nul_in(text@),
{
    let bytes = text.as_bytes();
    let at: usize = find_byte(bytes, 0, 0);
    if at < bytes.len() {
        Some(at)
    } else {
        None
    }
}

/// A call on a text that must not hold a zero byte.
pub open spec fn guarded(text: Seq<char>, plan: PlanView) -> PlanView {
    match nul_in(text) {
        Some(position) => fails_with(HelperErrorView::Nul(position)),
        None => plan,
    }
}

pub open spec fn root_disk_plan(path: Seq<char>, symbols: KrunSymbols) -> PlanView {
    if !symbols.add_disk {
        fails_with(HelperErrorView::MissingDiskApi)
    } else if !symbols.set_root_disk_remount {
        fails_with(HelperErrorView::MissingRootDiskApi)
    } else {
        guarded(
            path,
            calls_only(seq![KrunCallView::AddRootDisk(path), KrunCallView::SetRootDiskRemount]),
        )
    }
}

/// The disk becomes the root only after it was added, as one that can be written to.
pub fn configure_root_disk(path: &str, symbols: KrunSymbols) -> (plan: Plan)
    ensures
        plan@ == root_disk_plan(path@, symbols),
{
    if !symbols.add_disk {
        return Plan::error(HelperError::MissingDiskApi);
    }
    if !symbols.set_root_disk_remount {
        return Plan::error(HelperError::MissingRootDiskApi);
    }
    match find_nul(path) {
        Some(position) => Plan::error(HelperError::Nul(position)),
        None => Plan::two(KrunCall::AddRootDisk(path.to_owned()), KrunCall::SetRootDiskRemount),
    }
}

pub open spec fn root_plan(path: Seq<char>, symbols: KrunSymbols) -> PlanView {
    guarded(
        path,
        if symbols.set_root {
            calls_only(seq![KrunCallView::SetRoot(path)])
        } else if !symbols.add_virtiofs3 {
            fails_with(HelperErrorView::MissingRootApi)
        } else {
            calls_only(seq![KrunCallView::AddVirtiofs(path)])
        },
    )
}

/// A directory becomes the root, by the older function where there is one.
pub fn configure_root(path: &str, symbols: KrunSymbols) -> (plan: Plan)
    ensures
        plan@ == root_plan(path@, symbols),
{
    match find_nul(path) {
        Some(position) => Plan::error(HelperError::Nul(position)),
        None => {
            if symbols.set_root {
                Plan::one(KrunCall::SetRoot(path.to_owned()))
            } else if !symbols.add_virtiofs3 {
                Plan::error(HelperError::MissingRootApi)
            } else {
                Plan::one(KrunCall::AddVirtiofs(path.to_owned()))
            }
        },
    }
}

pub open spec fn network_plan(socket: Seq<char>, symbols: KrunSymbols) -> PlanView {
    if !symbols.add_net_unixgram {
        fails_with(HelperErrorView::MissingNetworkApi)
    } else {
        guarded(socket, calls_only(seq![KrunCallView::AddNetwork(socket)]))
    }
}

/// The machine gets a network device, which needs the function for it.
pub fn configure_network(socket: &str, symbols: KrunSymbols) -> (plan: Plan)
    ensures
        plan@ == network_plan(socket@, symbols),
{
    if !symbols.add_net_unixgram {
        return Plan::error(HelperError::MissingNetworkApi);
    }
    match find_nul(socket) {
        Some(position) => Plan::error(HelperError::Nul(position)),
        None => Plan::one(KrunCall::AddNetwork(socket.to_owned())),
    }
}

pub open spec fn vsock_plan(symbols: KrunSymbols) -> PlanView {
    if symbols.disable_implicit_vsock {
        calls_only(seq![KrunCallView::DisableImplicitVsock, KrunCallView::AddVsock])
    } else {
        calls_only(seq![KrunCallView::AddVsock])
    }
}

pub open spec fn control_plan(control: Option<Seq<char>>, symbols: KrunSymbols) -> PlanView {
    match control {
        None => calls_only(Seq::empty()),
        Some(path) => if !symbols.add_vsock_port {
            fails_with(HelperErrorView::MissingVsockPortApi)
        } else {
            guarded(
                path,
                calls_only(seq![KrunCallView::AddVsockPort { port: CONTROL_VSOCK_PORT, path }]),
            )
        },
    }
}

pub open spec fn networking_plan(
    control: Option<Seq<char>>,
    network: Option<Seq<char>>,
    symbols: KrunSymbols,
) -> PlanView {
    vsock_plan(symbols).followed_by(control_plan(control, symbols)).followed_by(
        match network {
            None => calls_only(Seq::empty()),
            Some(socket) => network_plan(socket, symbols),
        },
    )
}

/// The machine's sockets: a device without forwarding, the agent's port on it, and a network where
/// one was asked for.
pub fn configure_networking(
    control: &Option<String>,
    network: &Option<String>,
    symbols: KrunSymbols,
) -> (plan: Plan)
    ensures
        plan@ == networking_plan(
            crate::text::text_of(*control),
            crate::text::text_of(*network),
            symbols,
        ),
{
    let vsock = if symbols.disable_implicit_vsock {
        Plan::two(KrunCall::DisableImplicitVsock, KrunCall::AddVsock)
    } else {
        Plan::one(KrunCall::AddVsock)
    };
    let port = match control {
        None => Plan::none(),
        Some(path) => {
            if !symbols.add_vsock_port {
                Plan::error(HelperError::MissingVsockPortApi)
            } else {
                match find_nul(path.as_str()) {
                    Some(position) => Plan::error(HelperError::Nul(position)),
                    None => Plan::one(
                        KrunCall::AddVsockPort {
                            port: CONTROL_VSOCK_PORT,
                            path: path.as_str().to_owned(),
                        },
                    ),
                }
            }
        },
    };
    let device = match network {
        None => Plan::none(),
        Some(socket) => configure_network(socket.as_str(), symbols),
    };
    vsock.chain(port).chain(device)
}

pub open spec fn console_plan(input: i32, output: i32, error: i32, symbols: KrunSymbols) -> PlanView {
    if symbols.disable_implicit_console && symbols.add_virtio_console_default {
        calls_only(
            seq![
                KrunCallView::DisableImplicitConsole,
                KrunCallView::AddConsole { input, output, error },
            ],
        )
    } else {
        calls_only(Seq::empty())
    }
}

/// The machine's console: the implicit one is taken away before another is added, and stays where
/// either function is missing.
pub fn configure_console(input: i32, output: i32, error: i32, symbols: KrunSymbols) -> (plan: Plan)
    ensures
        plan@ == console_plan(input, output, error, symbols),
{
    if symbols.disable_implicit_console && symbols.add_virtio_console_default {
        Plan::two(
            KrunCall::DisableImplicitConsole,
            KrunCall::AddConsole { input, output, error },
        )
    } else {
        Plan::none()
    }
}

pub open spec fn workspace_plan(workspace: Option<Seq<char>>, symbols: KrunSymbols) -> PlanView {
    match workspace {
        None => calls_only(Seq::empty()),
        Some(path) => if !symbols.add_disk {
            fails_with(HelperErrorView::MissingDiskApi)
        } else {
            guarded(path, calls_only(seq![KrunCallView::AddWorkspaceDisk(path)]))
        },
    }
}

/// The workspace is a disk that cannot be written to.
pub fn configure_workspace_disk(workspace: &Option<String>, symbols: KrunSymbols) -> (plan: Plan)
    ensures
        plan@ == workspace_plan(crate::text::text_of(*workspace), symbols),
{
    match workspace {
        None => Plan::none(),
        Some(path) => {
            if !symbols.add_disk {
                return Plan::error(HelperError::MissingDiskApi);
            }
            match find_nul(path.as_str()) {
                Some(position) => Plan::error(HelperError::Nul(position)),
                None => Plan::one(KrunCall::AddWorkspaceDisk(path.as_str().to_owned())),
            }
        },
    }
}

/// The arguments of the agent.
pub open spec fn agent_arguments(request: HelperRequest) -> Seq<Seq<char>> {
    let base = seq![
        "--port"@,
        crate::text::decimal_text(CONTROL_VSOCK_PORT as nat),
        "--session"@,
        crate::doctor::discovery::or_command(
            crate::text::text_of(request.session_id),
            Seq::empty(),
        ),
    ];
    if request.workspace_disk is None {
        base
    } else if request.workspace_writable {
        base + seq!["--workspace-device"@, "/dev/vdb"@, "--workspace-writable"@]
    } else {
        base + seq!["--workspace-device"@, "/dev/vdb"@]
    }
}

/// The first zero byte in a list of texts, from a position on.
pub open spec fn nul_among(texts: Seq<Seq<char>>, from: int) -> Option<usize>
    decreases texts.len() - from,
{
    if 0 <= from < texts.len() {
        match nul_in(texts[from]) {
            Some(position) => Some(position),
            None => nul_among(texts, from + 1),
        }
    } else {
        None
    }
}

fn find_nul_among(texts: &Vec<String>) -> (position: Option<usize>)
    ensures
        position == nul_among(crate::text::strings(texts@), 0),
{
    let mut i: usize = 0;
    while i < texts.len()
        invariant
            i <= texts@.len(),
            nul_among(crate::text::strings(texts@), 0) == nul_among(
                crate::text::strings(texts@),
                i as int,
            ),
        decreases texts@.len() - i,
    {
        assert(crate::text::strings(texts@)[i as int] == texts@[i as int]@);
        match find_nul(texts[i].as_str()) {
            Some(position) => {
                return Some(position);
            },
            None => {},
        }
        i += 1;
    }
    None
}

/// What is executed in the machine: the agent, which is told the command later, or the command
/// itself.
pub open spec fn exec_plan(request: HelperRequest, controlled: bool) -> PlanView {
    let executable = if controlled {
        GUEST_AGENT_PATH@
    } else {
        request.command@[0]@
    };
    let arguments = if controlled {
        agent_arguments(request)
    } else {
        crate::text::strings(request.command@).skip(1)
    };
    let environment = if controlled {
        Seq::empty()
    } else {
        crate::helper::environment::lines_of(
            crate::helper::environment::environment_of(
                crate::helper::environment::pair_views(request.environment@),
            ),
        )
    };
    match (nul_in(executable), nul_among(arguments, 0), nul_among(environment, 0)) {
        (Some(position), _, _) => fails_with(HelperErrorView::Nul(position)),
        (None, Some(position), _) => fails_with(HelperErrorView::Nul(position)),
        (None, None, Some(position)) => fails_with(HelperErrorView::Nul(position)),
        (None, None, None) => calls_only(
            seq![KrunCallView::SetExec { executable, arguments, environment }],
        ),
    }
}

fn make_agent_arguments(request: &HelperRequest) -> (arguments: Vec<String>)
    ensures
        crate::text::strings(arguments@) == agent_arguments(*request),
{
    let session_id: &str = match &request.session_id {
        Some(session_id) => session_id.as_str(),
        None => "",
    };
    proof {
        reveal_strlit("");
        assert(""@ =~= Seq::empty());
    }
    let mut arguments: Vec<String> = Vec::new();
    arguments.push("--port".to_owned());
    arguments.push(decimal(CONTROL_VSOCK_PORT as u64));
    arguments.push("--session".to_owned());
    arguments.push(session_id.to_owned());
    if request.workspace_disk.is_some() {
        arguments.push("--workspace-device".to_owned());
        arguments.push("/dev/vdb".to_owned());
        if request.workspace_writable {
            arguments.push("--workspace-writable".to_owned());
        }
    }
    assert(crate::text::strings(arguments@) =~= agent_arguments(*request));
    arguments
}

fn command_arguments(command: &Vec<String>) -> (arguments: Vec<String>)
    requires
        command@.len() > 0,
    ensures
        crate::text::strings(arguments@) == crate::text::strings(command@).skip(1),
{
    let ghost whole = crate::text::strings(command@);
    let mut arguments: Vec<String> = Vec::new();
    let mut i: usize = 1;
    assert(crate::text::strings(arguments@) =~= whole.subrange(1, 1));
    while i < command.len()
        invariant
            1 <= i <= command@.len(),
            whole == crate::text::strings(command@),
            crate::text::strings(arguments@) == whole.subrange(1, i as int),
        decreases command@.len() - i,
    {
        let ghost before = arguments@;
        arguments.push(command[i].as_str().to_owned());
        assert(crate::text::strings(arguments@) =~= crate::text::strings(before).push(
            whole[i as int],
        ));
        i += 1;
        assert(whole.subrange(1, i as int) =~= whole.subrange(1, i - 1).push(whole[i - 1]));
    }
    assert(whole.subrange(1, i as int) =~= whole.skip(1));
    arguments
}

/// What is executed in the machine.
pub fn configure_exec(request: &HelperRequest, controlled: bool) -> (plan: Plan)
    requires
        request.command@.len() > 0,
    ensures
        plan@ == exec_plan(*request, controlled),
{
    let executable: String = if controlled {
        GUEST_AGENT_PATH.to_owned()
    } else {
        request.command[0].as_str().to_owned()
    };
    let arguments = if controlled {
        make_agent_arguments(request)
    } else {
        command_arguments(&request.command)
    };
    let environment = if controlled {
        let empty: Vec<String> = Vec::new();
        assert(crate::text::strings(empty@) =~= Seq::empty());
        empty
    } else {
        effective_environment(&request.environment)
    };
    match find_nul(executable.as_str()) {
        Some(position) => {
            return Plan::error(HelperError::Nul(position));
        },
        None => {},
    }
    match find_nul_among(&arguments) {
        Some(position) => {
            return Plan::error(HelperError::Nul(position));
        },
        None => {},
    }
    match find_nul_among(&environment) {
        Some(position) => {
            return Plan::error(HelperError::Nul(position));
        },
        None => {},
    }
    Plan::one(KrunCall::SetExec { executable, arguments, environment })
}

pub open spec fn workdir_plan(cwd: Option<Seq<char>>, controlled: bool) -> PlanView {
    match cwd {
        Some(path) => if controlled {
            calls_only(Seq::empty())
        } else {
            guarded(path, calls_only(seq![KrunCallView::SetWorkdir(path)]))
        },
        None => calls_only(Seq::empty()),
    }
}

pub open spec fn any_root_plan(request: HelperRequest, symbols: KrunSymbols) -> PlanView {
    match (request.root_disk, request.root) {
        (Some(disk), _) => root_disk_plan(disk@, symbols),
        (None, Some(root)) => root_plan(root@, symbols),
        (None, None) => fails_with(
            HelperErrorView::Invalid("exactly one of --root or --root-disk is required"@),
        ),
    }
}

/// All calls that configure a machine.  `control` is the socket at which its agent calls, which
/// there is for a machine whose root is a disk; `input` is where its console reads from.
pub open spec fn machine_plan(
    request: HelperRequest,
    symbols: KrunSymbols,
    control: Option<Seq<char>>,
    input: i32,
) -> PlanView {
    let controlled = control is Some;
    calls_only(
        seq![
            KrunCallView::SetVmConfig { cpus: request.cpus, memory_mib: request.memory_mib },
        ],
    ).followed_by(any_root_plan(request, symbols)).followed_by(
        networking_plan(control, crate::text::text_of(request.network_socket), symbols),
    ).followed_by(
        console_plan(
            input,
            if controlled {
                2
            } else {
                1
            },
            2,
            symbols,
        ),
    ).followed_by(
        workspace_plan(crate::text::text_of(request.workspace_disk), symbols),
    ).followed_by(workdir_plan(crate::text::text_of(request.cwd), controlled)).followed_by(
        exec_plan(request, controlled),
    )
}

/// Plans the configuration of a machine.
pub fn plan_machine(
    request: &HelperRequest,
    symbols: KrunSymbols,
    control: &Option<String>,
    input: i32,
) -> (plan: Plan)
    requires
        request.command@.len() > 0,
    ensures
        plan@ == machine_plan(*request, symbols, crate::text::text_of(*control), input),
{
    let controlled: bool = control.is_some();
    let root = match &request.root_disk {
        Some(disk) => configure_root_disk(disk.as_str(), symbols),
        None => match &request.root {
            Some(root) => configure_root(root.as_str(), symbols),
            None => Plan::error(
                HelperError::Invalid(
                    "exactly one of --root or --root-disk is required".to_owned(),
                ),
            ),
        },
    };
    let output: i32 = if controlled {
        2
    } else {
        1
    };
    let workdir = match &request.cwd {
        Some(path) => {
            if controlled {
                Plan::none()
            } else {
                match find_nul(path.as_str()) {
                    Some(position) => Plan::error(HelperError::Nul(position)),
                    None => Plan::one(KrunCall::SetWorkdir(path.as_str().to_owned())),
                }
            }
        },
        None => Plan::none(),
    };
    Plan::one(
        KrunCall::SetVmConfig { cpus: request.cpus, memory_mib: request.memory_mib },
    ).chain(root).chain(configure_networking(control, &request.network_socket, symbols)).chain(
        configure_console(input, output, 2, symbols),
    ).chain(configure_workspace_disk(&request.workspace_disk, symbols)).chain(workdir).chain(
        configure_exec(request, controlled),
    )
}

/// A machine without a network request gets no network device, and whatever is asked for, its
/// socket device forwards nothing by itself.
pub proof fn law_network_is_opt_in(control: Option<Seq<char>>, symbols: KrunSymbols)
    ensures
        !exists|i: int|
            0 <= i < networking_plan(control, None, symbols).calls.len() && (
            #[trigger] networking_plan(control, None, symbols).calls[i]) is AddNetwork,
        networking_plan(control, None, symbols).calls.contains(KrunCallView::AddVsock),
{
    let plan = networking_plan(control, None, symbols);
    let base = vsock_plan(symbols);
    let at = base.calls.len() - 1;
    assert(base.calls[at] == KrunCallView::AddVsock);
    assert(plan.calls[at] == KrunCallView::AddVsock);
}

/// The workspace is never attached so that the guest can write to it.
pub proof fn law_workspace_disk_is_read_only(workspace: Option<Seq<char>>, symbols: KrunSymbols)
    ensures
        forall|i: int|
            0 <= i < workspace_plan(workspace, symbols).calls.len() ==> (
            #[trigger] workspace_plan(workspace, symbols).calls[i]) is AddWorkspaceDisk,
{
}

} // verus!
