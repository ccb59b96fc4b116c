//! The backend that runs a command in a microVM: what it accepts, how its helper is called, and
//! how it is controlled.

pub mod conduct;
pub mod network;
pub mod publish;
pub mod root;
pub mod spawn;
pub mod terminal;

use vstd::prelude::*;
use vstd::string::*;

use crate::backend::{
    Backend, BackendCapabilities, BackendError, BackendErrorView, CapabilitySupport,
    IsolationLevel, Signal,
};
use crate::libkrun::root::prepared_key;
use crate::paths::{join_path, parent};
use crate::pool::PreparedKey;
use crate::process::{signal_number, signal_target};
use crate::session::finish::ExitParts;
use crate::text::{decimal, join, join3};

verus! {

/// Where the parts of the native runtime lie, and how large a machine is.
#[derive(Debug)]
pub struct LibkrunConfig {
    pub helper_path: String,
    pub library_path: String,
    pub libkrunfw_path: Option<String>,
    pub root_path: String,
    pub root_disk: Option<String>,
    pub debugfs_path: String,
    pub library_search_path: Option<String>,
    pub vcpus: u8,
    pub memory_mib: u32,
    pub workspace_disk: Option<String>,
    pub gvproxy_path: Option<String>,
    pub network_runtime_dir: String,
    pub control_runtime_dir: String,
}

pub struct LibkrunConfigView {
    pub helper_path: Seq<char>,
    pub library_path: Seq<char>,
    pub libkrunfw_path: Option<Seq<char>>,
    pub root_path: Seq<char>,
    pub root_disk: Option<Seq<char>>,
    pub debugfs_path: Seq<char>,
    pub library_search_path: Option<Seq<char>>,
    pub vcpus: u8,
    pub memory_mib: u32,
    pub workspace_disk: Option<Seq<char>>,
    pub gvproxy_path: Option<Seq<char>>,
    pub network_runtime_dir: Seq<char>,
    pub control_runtime_dir: Seq<char>,
}

impl View for LibkrunConfig {
    type V = LibkrunConfigView;

    open spec fn view(&self) -> LibkrunConfigView {
        LibkrunConfigView {
            helper_path: self.helper_path@,
            library_path: self.library_path@,
            libkrunfw_path: crate::text::text_of(self.libkrunfw_path),
            root_path: self.root_path@,
            root_disk: crate::text::text_of(self.root_disk),
            debugfs_path: self.debugfs_path@,
            library_search_path: crate::text::text_of(self.library_search_path),
            vcpus: self.vcpus,
            memory_mib: self.memory_mib,
            workspace_disk: crate::text::text_of(self.workspace_disk),
            gvproxy_path: crate::text::text_of(self.gvproxy_path),
            network_runtime_dir: self.network_runtime_dir@,
            control_runtime_dir: self.control_runtime_dir@,
        }
    }
}

/// The image-backed source of ephemeral roots.
#[derive(Debug)]
pub struct BoxRootSource {
    pub rootfs_path: String,
    pub manifest_digest: String,
    pub platform: String,
    pub virtual_size_bytes: u64,
    pub mke2fs_path: String,
}

/// What was found at the paths of a configuration.
#[derive(Debug)]
pub struct PathFacts {
    pub helper_exists: bool,
    pub library_exists: bool,
    /// What is wrong with the native runtime, if anything.
    pub native_error: Option<String>,
    pub root_disk_is_file: bool,
    pub root_is_directory: bool,
    pub debugfs_is_file: bool,
    pub workspace_is_file: bool,
}

/// The firmware that is looked for beside a library.
pub open spec fn firmware_beside(library: Seq<char>) -> Option<Seq<char>> {
    match crate::paths::parent_of(library) {
        Some(directory) => Some(crate::paths::join_of(directory, "libkrunfw.dylib"@)),
        None => None,
    }
}

/// Why a configuration cannot be used, if it cannot: the first thing that is wrong.
pub open spec fn config_complaint(
    config: LibkrunConfigView,
    managed_root: bool,
    facts: PathFacts,
) -> Option<BackendErrorView> {
    if config.vcpus == 0 {
        Some(BackendErrorView::InvalidSpec("vCPU count must be non-zero"@))
    } else if config.memory_mib == 0 {
        Some(BackendErrorView::InvalidSpec("memory must be non-zero"@))
    } else if !facts.helper_exists {
        Some(BackendErrorView::Control("VMM helper does not exist: "@ + config.helper_path))
    } else if !facts.library_exists {
        Some(BackendErrorView::Control("libkrun does not exist: "@ + config.library_path))
    } else if facts.native_error is Some {
        Some(BackendErrorView::Control(facts.native_error->0@))
    } else if !managed_root && config.root_disk is Some && !facts.root_disk_is_file {
        Some(BackendErrorView::Control("root disk does not exist: "@ + config.root_disk->0))
    } else if !managed_root && config.root_disk is None && !facts.root_is_directory {
        Some(BackendErrorView::Control("root filesystem does not exist: "@ + config.root_path))
    } else if (managed_root || config.root_disk is Some) && !facts.debugfs_is_file {
        Some(BackendErrorView::Control("debugfs does not exist: "@ + config.debugfs_path))
    } else if config.workspace_disk is Some && !facts.workspace_is_file {
        Some(
            BackendErrorView::Control("workspace disk does not exist: "@ + config.workspace_disk->0),
        )
    } else {
        None
    }
}

impl LibkrunConfig {
    /// The firmware that belongs to a library, if there is a file of that name.
    pub fn firmware_candidate(library_path: &str) -> (path: Option<String>)
        ensures
            crate::text::text_of(path) == firmware_beside(library_path@),
    {
        match parent(library_path) {
            Some(directory) => Some(join_path(directory.as_str(), "libkrunfw.dylib")),
            None => None,
        }
    }

    /// A configuration with two processors and 512 MiB; `firmware` is the library's firmware
    /// candidate where there is a file of that name.
    pub fn new(
        helper_path: String,
        library_path: String,
        root_path: String,
        firmware: Option<String>,
    ) -> (config: LibkrunConfig)
        ensures
            config@ == (LibkrunConfigView {
                helper_path: helper_path@,
                library_path: library_path@,
                libkrunfw_path: crate::text::text_of(firmware),
                root_path: root_path@,
                root_disk: None,
                debugfs_path: "debugfs"@,
                library_search_path: None,
                vcpus: 2,
                memory_mib: 512,
                workspace_disk: None,
                gvproxy_path: None,
                network_runtime_dir: ".moraebox/network"@,
                control_runtime_dir: ".moraebox/control"@,
            }),
    {
        LibkrunConfig {
            helper_path,
            library_path,
            libkrunfw_path: firmware,
            root_path,
            root_disk: None,
            debugfs_path: "debugfs".to_owned(),
            library_search_path: None,
            vcpus: 2,
            memory_mib: 512,
            workspace_disk: None,
            gvproxy_path: None,
            network_runtime_dir: ".moraebox/network".to_owned(),
            control_runtime_dir: ".moraebox/control".to_owned(),
        }
    }

    pub fn with_root_disk(self, root_disk: String) -> (config: LibkrunConfig)
        ensures
            config@ == (LibkrunConfigView { root_disk: Some(root_disk@), ..self@ }),
    {
        let mut config = self;
        config.root_disk = Some(root_disk);
        config
    }

    pub fn with_libkrunfw(self, path: String) -> (config: LibkrunConfig)
        ensures
            config@ == (LibkrunConfigView { libkrunfw_path: Some(path@), ..self@ }),
    {
        let mut config = self;
        config.libkrunfw_path = Some(path);
        config
    }

    /// Whether a machine can be started, by what was found at the paths.
    pub fn validate(&self, managed_root: bool, facts: &PathFacts) -> (checked: Result<
        (),
        BackendError,
    >)
        ensures
            match checked {
                Ok(()) => config_complaint(self@, managed_root, *facts) is None,
                Err(error) => config_complaint(self@, managed_root, *facts) == Some(error@),
            },
    {
        if self.vcpus == 0 {
            return Err(BackendError::InvalidSpec("vCPU count must be non-zero".to_owned()));
        }
        if self.memory_mib == 0 {
            return Err(BackendError::InvalidSpec("memory must be non-zero".to_owned()));
        }
        if !facts.helper_exists {
            return Err(
                BackendError::Control(
                    join("VMM helper does not exist: ", self.helper_path.as_str()),
                ),
            );
        }
        if !facts.library_exists {
            return Err(
                BackendError::Control(join("libkrun does not exist: ", self.library_path.as_str())),
            );
        }
        match &facts.native_error {
            Some(error) => {
                return Err(BackendError::Control(error.as_str().to_owned()));
            },
            None => {},
        }
        if !managed_root {
            match &self.root_disk {
                Some(path) => {
                    if !facts.root_disk_is_file {
                        return Err(
                            BackendError::Control(
                                join("root disk does not exist: ", path.as_str()),
                            ),
                        );
                    }
                },
                None => {
                    if !facts.root_is_directory {
                        return Err(
                            BackendError::Control(
                                join("root filesystem does not exist: ", self.root_path.as_str()),
                            ),
                        );
                    }
                },
            }
        }
        if (managed_root || self.root_disk.is_some()) && !facts.debugfs_is_file {
            return Err(
                BackendError::Control(join("debugfs does not exist: ", self.debugfs_path.as_str())),
            );
        }
        match &self.workspace_disk {
            Some(path) => {
                if !facts.workspace_is_file {
                    return Err(
                        BackendError::Control(
                            join("workspace disk does not exist: ", path.as_str()),
                        ),
                    );
                }
            },
            None => {},
        }
        Ok(())
    }

    /// The proxy of a machine's network, which has to be a file.
    pub fn network_proxy_path(&self, is_file: bool) -> (path: Result<&str, BackendError>)
        ensures
            match (path, self@.gvproxy_path) {
                (Ok(found), Some(configured)) => is_file && found@ == configured,
                (Err(error), Some(configured)) => !is_file && error@ == BackendErrorView::Control(
                    "gvproxy does not exist: "@ + configured,
                ),
                (Err(error), None) => error@ == BackendErrorView::Control(
                    "network access requires --gvproxy, MORAE_GVPROXY_PATH, or gvproxy on PATH"@,
                ),
                (Ok(_), None) => false,
            },
    {
        match &self.gvproxy_path {
            None => Err(
                BackendError::Control(
                    "network access requires --gvproxy, MORAE_GVPROXY_PATH, or gvproxy on PATH".to_owned(),
                ),
            ),
            Some(path) => {
                if is_file {
                    Ok(path.as_str())
                } else {
                    Err(BackendError::Control(join("gvproxy does not exist: ", path.as_str())))
                }
            },
        }
    }
}

/// A file or directory that is copied between the host and the guest.
#[derive(Debug)]
pub struct CopySpec {
    pub source: String,
    pub destination: String,
}

/// What the backend reads of a run specification.
#[derive(Debug)]
pub struct MachineRun {
    pub session_id: String,
    pub has_box: bool,
    pub cwd: Option<String>,
    pub tty: bool,
    pub tty_rows: u16,
    pub tty_columns: u16,
    /// Whether the workspace is to be writable through an overlay.
    pub overlay: bool,
    pub copy_in: Vec<CopySpec>,
    pub copy_out: Vec<CopySpec>,
    pub copy_limit_bytes: u64,
    pub environment: Vec<(String, String)>,
    pub argv: Vec<String>,
}

/// Why a run is refused by a backend with a valid configuration, if it is.
pub open spec fn run_complaint(
    config: LibkrunConfigView,
    managed_root: bool,
    run: MachineRun,
) -> Option<BackendErrorView> {
    let directory_root = !managed_root && config.root_disk is None;
    if run.has_box && !managed_root {
        Some(
            BackendErrorView::Control("run requested a BoxId but no Box store is configured"@),
        )
    } else if (run.copy_in@.len() > 0 || run.copy_out@.len() > 0) && directory_root {
        Some(
            BackendErrorView::Unsupported(
                "copy-in/out with a directory root; use a managed or explicit root disk"@,
            ),
        )
    } else if config.workspace_disk is Some && directory_root {
        Some(
            BackendErrorView::Unsupported(
                "workspace mounting with a directory root; use a managed or explicit root disk"@,
            ),
        )
    } else if run.overlay && config.workspace_disk is None {
        Some(
            BackendErrorView::Unsupported(
                "writable workspace overlay without an immutable workspace disk"@,
            ),
        )
    } else {
        None
    }
}

/// How the helper is given the machine's network.
#[derive(Debug)]
pub enum NetworkArgument {
    Absent,
    /// An inherited socket.
    Descriptor(u32),
    /// The path of the proxy's socket.
    Socket(String),
}

pub open spec fn copy_arguments(
    copies: Seq<CopySpec>,
    upto: nat,
    source_flag: Seq<char>,
    destination_flag: Seq<char>,
) -> Seq<Seq<char>>
    decreases upto,
{
    if upto == 0 {
        Seq::empty()
    } else {
        copy_arguments(copies, (upto - 1) as nat, source_flag, destination_flag) + seq![
            source_flag,
            copies[upto - 1].source@,
            destination_flag,
            copies[upto - 1].destination@,
        ]
    }
}

pub open spec fn environment_arguments(environment: Seq<(String, String)>, upto: nat) -> Seq<
    Seq<char>,
>
    decreases upto,
{
    if upto == 0 {
        Seq::empty()
    } else {
        environment_arguments(environment, (upto - 1) as nat) + seq![
            "--env"@,
            environment[upto - 1].0@ + "="@ + environment[upto - 1].1@,
        ]
    }
}

pub open spec fn root_arguments(
    config: LibkrunConfigView,
    run: MachineRun,
    disk: Option<Seq<char>>,
) -> Seq<Seq<char>> {
    match disk {
        Some(path) => seq![
            "--root-disk"@,
            path,
            "--debugfs"@,
            config.debugfs_path,
            "--session-id"@,
            run.session_id@,
        ],
        None => seq!["--root"@, config.root_path],
    }
}

pub open spec fn option_argument(flag: Seq<char>, value: Option<Seq<char>>) -> Seq<Seq<char>> {
    match value {
        Some(text) => seq![flag, text],
        None => Seq::empty(),
    }
}

pub open spec fn terminal_arguments(run: MachineRun) -> Seq<Seq<char>> {
    if run.tty {
        seq![
            "--tty"@,
            "--tty-rows"@,
            crate::text::decimal_text(run.tty_rows as nat),
            "--tty-cols"@,
            crate::text::decimal_text(run.tty_columns as nat),
        ]
    } else {
        Seq::empty()
    }
}

pub open spec fn workspace_arguments(config: LibkrunConfigView, run: MachineRun) -> Seq<Seq<char>> {
    match config.workspace_disk {
        Some(path) => if run.overlay {
            seq!["--workspace-disk"@, path, "--workspace-writable"@]
        } else {
            seq!["--workspace-disk"@, path]
        },
        None => Seq::empty(),
    }
}

pub open spec fn network_arguments(network: NetworkArgument) -> Seq<Seq<char>> {
    match network {
        NetworkArgument::Absent => Seq::empty(),
        NetworkArgument::Descriptor(number) => seq![
            "--network-fd"@,
            crate::text::decimal_text(number as nat),
        ],
        NetworkArgument::Socket(path) => seq!["--network-socket"@, path@],
    }
}

pub open spec fn limit_arguments(run: MachineRun) -> Seq<Seq<char>> {
    if run.copy_in@.len() > 0 || run.copy_out@.len() > 0 {
        seq!["--copy-limit-bytes"@, crate::text::decimal_text(run.copy_limit_bytes as nat)]
    } else {
        Seq::empty()
    }
}

/// The arguments of the helper: the machine, then what is run in it behind two hyphens.  A control
/// pipe belongs to a machine whose root is a disk.
pub open spec fn helper_arguments_spec(
    config: LibkrunConfigView,
    run: MachineRun,
    disk: Option<Seq<char>>,
    network: NetworkArgument,
    parent_pid: u32,
    control_fifo: Option<Seq<char>>,
) -> Seq<Seq<char>> {
    seq!["--libkrun"@, config.library_path] + root_arguments(config, run, disk) + seq![
        "--cpus"@,
        crate::text::decimal_text(config.vcpus as nat),
        "--memory-mib"@,
        crate::text::decimal_text(config.memory_mib as nat),
        "--parent-pid"@,
        crate::text::decimal_text(parent_pid as nat),
    ] + option_argument("--cwd"@, crate::text::text_of(run.cwd)) + terminal_arguments(run)
        + workspace_arguments(config, run) + network_arguments(network) + copy_arguments(
        run.copy_in@,
        run.copy_in@.len(),
        "--copy-in-source"@,
        "--copy-in-destination"@,
    ) + copy_arguments(
        run.copy_out@,
        run.copy_out@.len(),
        "--copy-out-source"@,
        "--copy-out-destination"@,
    ) + limit_arguments(run) + environment_arguments(run.environment@, run.environment@.len())
        + option_argument("--control-fifo"@, control_fifo) + seq!["--"@]
        + crate::text::strings(run.argv@)
}

fn push_text(list: &mut Vec<String>, text: &str)
    ensures
        crate::text::strings(final(list)@) == crate::text::strings(
            old(list)@,
        ).push(text@),
{
    let ghost before = list@;
    list.push(text.to_owned());
    assert(crate::text::strings(list@) =~= crate::text::strings(
        before,
    ).push(text@));
}

fn push_pair(list: &mut Vec<String>, flag: &str, value: &str)
    ensures
        crate::text::strings(final(list)@) == crate::text::strings(
            old(list)@,
        ) + seq![flag@, value@],
{
    push_text(list, flag);
    push_text(list, value);
    assert(crate::text::strings(list@) =~= crate::text::strings(
        old(list)@,
    ) + seq![flag@, value@]);
}

fn push_option(list: &mut Vec<String>, flag: &str, value: &Option<String>)
    ensures
        crate::text::strings(final(list)@) == crate::text::strings(
            old(list)@,
        ) + option_argument(flag@, crate::text::text_of(*value)),
{
    match value {
        Some(text) => push_pair(list, flag, text.as_str()),
        None => {
            assert(crate::text::strings(list@) + Seq::empty()
                =~= crate::text::strings(list@));
        },
    }
}

fn push_copies(
    list: &mut Vec<String>,
    copies: &Vec<CopySpec>,
    source_flag: &str,
    destination_flag: &str,
)
    ensures
        crate::text::strings(final(list)@) == crate::text::strings(
            old(list)@,
        ) + copy_arguments(copies@, copies@.len(), source_flag@, destination_flag@),
{
    let ghost before = crate::text::strings(list@);
    let mut i: usize = 0;
    assert(before + Seq::empty() =~= before);
    while i < copies.len()
        invariant
            i <= copies@.len(),
            crate::text::strings(list@) == before + copy_arguments(
                copies@,
                i as nat,
                source_flag@,
                destination_flag@,
            ),
        decreases copies@.len() - i,
    {
        push_pair(list, source_flag, copies[i].source.as_str());
        push_pair(list, destination_flag, copies[i].destination.as_str());
        i += 1;
        assert(crate::text::strings(list@) =~= before + copy_arguments(
            copies@,
            i as nat,
            source_flag@,
            destination_flag@,
        ));
    }
}

fn push_environment(list: &mut Vec<String>, environment: &Vec<(String, String)>)
    ensures
        crate::text::strings(final(list)@) == crate::text::strings(
            old(list)@,
        ) + environment_arguments(environment@, environment@.len()),
{
    let ghost before = crate::text::strings(list@);
    let mut i: usize = 0;
    assert(before + Seq::empty() =~= before);
    while i < environment.len()
        invariant
            i <= environment@.len(),
            crate::text::strings(list@) == before + environment_arguments(
                environment@,
                i as nat,
            ),
        decreases environment@.len() - i,
    {
        let pair = join3(environment[i].0.as_str(), "=", environment[i].1.as_str());
        push_pair(list, "--env", pair.as_str());
        i += 1;
        assert(crate::text::strings(list@) =~= before + environment_arguments(
            environment@,
            i as nat,
        ));
    }
}

fn push_root(list: &mut Vec<String>, config: &LibkrunConfig, run: &MachineRun, disk: &Option<String>)
    ensures
        crate::text::strings(final(list)@) == crate::text::strings(old(list)@) + root_arguments(
            config@,
            *run,
            crate::text::text_of(*disk),
        ),
{
    match disk {
        Some(path) => {
            push_pair(list, "--root-disk", path.as_str());
            push_pair(list, "--debugfs", config.debugfs_path.as_str());
            push_pair(list, "--session-id", run.session_id.as_str());
        },
        None => {
            push_pair(list, "--root", config.root_path.as_str());
        },
    }
    assert(crate::text::strings(list@) =~= crate::text::strings(old(list)@) + root_arguments(
        config@,
        *run,
        crate::text::text_of(*disk),
    ));
}

fn push_sizes(list: &mut Vec<String>, config: &LibkrunConfig, parent_pid: u32)
    ensures
        crate::text::strings(final(list)@) == crate::text::strings(old(list)@) + seq![
            "--cpus"@,
            crate::text::decimal_text(config@.vcpus as nat),
            "--memory-mib"@,
            crate::text::decimal_text(config@.memory_mib as nat),
            "--parent-pid"@,
            crate::text::decimal_text(parent_pid as nat),
        ],
{
    push_pair(list, "--cpus", decimal(config.vcpus as u64).as_str());
    push_pair(list, "--memory-mib", decimal(config.memory_mib as u64).as_str());
    push_pair(list, "--parent-pid", decimal(parent_pid as u64).as_str());
    assert(crate::text::strings(list@) =~= crate::text::strings(old(list)@) + seq![
        "--cpus"@,
        crate::text::decimal_text(config@.vcpus as nat),
        "--memory-mib"@,
        crate::text::decimal_text(config@.memory_mib as nat),
        "--parent-pid"@,
        crate::text::decimal_text(parent_pid as nat),
    ]);
}

fn push_terminal(list: &mut Vec<String>, run: &MachineRun)
    ensures
        crate::text::strings(final(list)@) == crate::text::strings(old(list)@)
            + terminal_arguments(*run),
{
    if run.tty {
        push_text(list, "--tty");
        push_pair(list, "--tty-rows", decimal(run.tty_rows as u64).as_str());
        push_pair(list, "--tty-cols", decimal(run.tty_columns as u64).as_str());
    }
    assert(crate::text::strings(list@) =~= crate::text::strings(old(list)@) + terminal_arguments(
        *run,
    ));
}

fn push_workspace(list: &mut Vec<String>, config: &LibkrunConfig, run: &MachineRun)
    ensures
        crate::text::strings(final(list)@) == crate::text::strings(old(list)@)
            + workspace_arguments(config@, *run),
{
    match &config.workspace_disk {
        Some(path) => {
            push_pair(list, "--workspace-disk", path.as_str());
            if run.overlay {
                push_text(list, "--workspace-writable");
            }
        },
        None => {},
    }
    assert(crate::text::strings(list@) =~= crate::text::strings(old(list)@) + workspace_arguments(
        config@,
        *run,
    ));
}

fn push_network(list: &mut Vec<String>, network: &NetworkArgument)
    ensures
        crate::text::strings(final(list)@) == crate::text::strings(old(list)@)
            + network_arguments(*network),
{
    match network {
        NetworkArgument::Absent => {},
        NetworkArgument::Descriptor(number) => {
            push_pair(list, "--network-fd", decimal(*number as u64).as_str());
        },
        NetworkArgument::Socket(path) => {
            push_pair(list, "--network-socket", path.as_str());
        },
    }
    assert(crate::text::strings(list@) =~= crate::text::strings(old(list)@) + network_arguments(
        *network,
    ));
}

/// A backend with its configuration, and whether it manages boxes.
pub struct LibkrunBackend {
    pub config: LibkrunConfig,
    pub managed_root: bool,
    pub workspace_digest: Option<String>,
}

impl Backend for LibkrunBackend {
    open spec fn name_spec(&self) -> Seq<char> {
        "libkrun"@
    }

    open spec fn capabilities_spec(&self) -> BackendCapabilities {
        BackendCapabilities {
            isolation: IsolationLevel::MicroVm,
            tty: CapabilitySupport::Supported,
            network: CapabilitySupport::Supported,
            box_persistence: CapabilitySupport::Supported,
            workspace: CapabilitySupport::Supported,
        }
    }

    fn name(&self) -> (name: &'static str) {
        "libkrun"
    }

    fn capabilities(&self) -> (capabilities: BackendCapabilities) {
        BackendCapabilities {
            isolation: IsolationLevel::MicroVm,
            tty: CapabilitySupport::Supported,
            network: CapabilitySupport::Supported,
            box_persistence: CapabilitySupport::Supported,
            workspace: CapabilitySupport::Supported,
        }
    }
}

impl LibkrunBackend {
    pub fn new(config: LibkrunConfig) -> (backend: LibkrunBackend)
        ensures
            backend.config == config,
            !backend.managed_root,
            backend.workspace_digest is None,
    {
        LibkrunBackend { config, managed_root: false, workspace_digest: None }
    }

    /// The same backend, with boxes.
    pub fn with_box_runtime(self) -> (backend: LibkrunBackend)
        ensures
            backend == (LibkrunBackend { managed_root: true, ..self }),
    {
        LibkrunBackend {
            config: self.config,
            managed_root: true,
            workspace_digest: self.workspace_digest,
        }
    }

    /// The same backend, which tells prepared roots apart by the workspace image too.
    pub fn with_workspace_digest(self, digest: String) -> (backend: LibkrunBackend)
        ensures
            backend == (LibkrunBackend { workspace_digest: Some(digest), ..self }),
    {
        LibkrunBackend {
            config: self.config,
            managed_root: self.managed_root,
            workspace_digest: Some(digest),
        }
    }

    /// The key under which the disks for a run are prepared.
    pub fn prepared_key(&self, manifest_digest: &str, base_key: &str) -> (key: PreparedKey)
        ensures
            key@ == crate::libkrun::root::prepared_key_of(
                manifest_digest@,
                crate::text::text_of(self.workspace_digest),
                base_key@,
            ),
    {
        prepared_key(manifest_digest, &self.workspace_digest, base_key)
    }

    /// Whether a run can be started, before anything is: `invalid` is what is wrong with the
    /// specification itself.
    pub fn check(&self, run: &MachineRun, invalid: Option<String>, facts: &PathFacts) -> (checked:
        Result<(), BackendError>)
        ensures
            match checked {
                Ok(()) => invalid is None && config_complaint(
                    self.config@,
                    self.managed_root,
                    *facts,
                ) is None && run_complaint(self.config@, self.managed_root, *run) is None,
                Err(error) => Some(error@) == (match invalid {
                    Some(reason) => Some(BackendErrorView::InvalidSpec(reason@)),
                    None => match config_complaint(self.config@, self.managed_root, *facts) {
                        Some(complaint) => Some(complaint),
                        None => run_complaint(self.config@, self.managed_root, *run),
                    },
                }),
            },
    {
        match invalid {
            Some(reason) => {
                return Err(BackendError::InvalidSpec(reason));
            },
            None => {},
        }
        match self.config.validate(self.managed_root, facts) {
            Ok(()) => {},
            Err(error) => {
                return Err(error);
            },
        }
        let directory_root: bool = !self.managed_root && self.config.root_disk.is_none();
        if run.has_box && !self.managed_root {
            return Err(
                BackendError::Control(
                    "run requested a BoxId but no Box store is configured".to_owned(),
                ),
            );
        }
        if (run.copy_in.len() > 0 || run.copy_out.len() > 0) && directory_root {
            return Err(
                BackendError::Unsupported(
                    "copy-in/out with a directory root; use a managed or explicit root disk".to_owned(),
                ),
            );
        }
        if self.config.workspace_disk.is_some() && directory_root {
            return Err(
                BackendError::Unsupported(
                    "workspace mounting with a directory root; use a managed or explicit root disk".to_owned(),
                ),
            );
        }
        if run.overlay && self.config.workspace_disk.is_none() {
            return Err(
                BackendError::Unsupported(
                    "writable workspace overlay without an immutable workspace disk".to_owned(),
                ),
            );
        }
        Ok(())
    }

    /// Makes the arguments of the helper.
    pub fn helper_arguments(
        &self,
        run: &MachineRun,
        disk: &Option<String>,
        network: &NetworkArgument,
        parent_pid: u32,
        control_fifo: &Option<String>,
    ) -> (arguments: Vec<String>)
        ensures
            crate::text::strings(arguments@) == helper_arguments_spec(
                self.config@,
                *run,
                crate::text::text_of(*disk),
                *network,
                parent_pid,
                crate::text::text_of(*control_fifo),
            ),
    {
        let config = &self.config;
        let mut list: Vec<String> = Vec::new();
        assert(crate::text::strings(list@) =~= Seq::empty());
        push_pair(&mut list, "--libkrun", config.library_path.as_str());
        let ghost mut expected: Seq<Seq<char>> = seq!["--libkrun"@, config@.library_path];
        assert(crate::text::strings(list@) =~= expected);
        push_root(&mut list, config, run, disk);
        proof {
            expected = expected + root_arguments(config@, *run, crate::text::text_of(*disk));
            assert(crate::text::strings(list@) =~= expected);
        }
        push_sizes(&mut list, config, parent_pid);
        proof {
            expected =
            expected + seq![
                "--cpus"@,
                crate::text::decimal_text(config@.vcpus as nat),
                "--memory-mib"@,
                crate::text::decimal_text(config@.memory_mib as nat),
                "--parent-pid"@,
                crate::text::decimal_text(parent_pid as nat),
            ];
            assert(crate::text::strings(list@) =~= expected);
        }
        push_option(&mut list, "--cwd", &run.cwd);
        proof {
            expected = expected + option_argument("--cwd"@, crate::text::text_of(run.cwd));
        }
        push_terminal(&mut list, run);
        proof {
            expected = expected + terminal_arguments(*run);
            assert(crate::text::strings(list@) =~= expected);
        }
        push_workspace(&mut list, config, run);
        proof {
            expected = expected + workspace_arguments(config@, *run);
            assert(crate::text::strings(list@) =~= expected);
        }
        push_network(&mut list, network);
        proof {
            expected = expected + network_arguments(*network);
            assert(crate::text::strings(list@) =~= expected);
        }
        push_copies(&mut list, &run.copy_in, "--copy-in-source", "--copy-in-destination");
        push_copies(&mut list, &run.copy_out, "--copy-out-source", "--copy-out-destination");
        proof {
            expected =
            expected + copy_arguments(
                run.copy_in@,
                run.copy_in@.len(),
                "--copy-in-source"@,
                "--copy-in-destination"@,
            ) + copy_arguments(
                run.copy_out@,
                run.copy_out@.len(),
                "--copy-out-source"@,
                "--copy-out-destination"@,
            );
        }
        if run.copy_in.len() > 0 || run.copy_out.len() > 0 {
            push_pair(
                &mut list,
                "--copy-limit-bytes",
                decimal(run.copy_limit_bytes).as_str(),
            );
        }
        proof {
            expected = expected + limit_arguments(*run);
            assert(crate::text::strings(list@) =~= expected);
        }
        push_environment(&mut list, &run.environment);
        push_option(&mut list, "--control-fifo", control_fifo);
        push_text(&mut list, "--");
        proof {
            expected =
            expected + environment_arguments(run.environment@, run.environment@.len())
                + option_argument("--control-fifo"@, crate::text::text_of(*control_fifo)) + seq![
                "--"@,
            ];
            assert(crate::text::strings(list@) =~= expected);
        }
        let ghost command = crate::text::strings(run.argv@);
        let mut i: usize = 0;
        assert(expected + command.subrange(0, 0) =~= expected);
        while i < run.argv.len()
            invariant
                i <= run.argv@.len(),
                command == crate::text::strings(run.argv@),
                crate::text::strings(list@) == expected + command.subrange(
                    0,
                    i as int,
                ),
            decreases run.argv@.len() - i,
        {
            push_text(&mut list, run.argv[i].as_str());
            i += 1;
            assert(crate::text::strings(list@) =~= expected + command.subrange(
                0,
                i as int,
            ));
        }
        assert(command.subrange(0, i as int) =~= command);
        list
    }
}

/// A command is passed to the helper as it is: behind two hyphens, argument by argument.
pub proof fn law_command_is_passed_as_it_is(
    config: LibkrunConfigView,
    run: MachineRun,
    disk: Option<Seq<char>>,
    network: NetworkArgument,
    parent_pid: u32,
    control_fifo: Option<Seq<char>>,
)
    ensures
        ({
            let arguments = helper_arguments_spec(
                config,
                run,
                disk,
                network,
                parent_pid,
                control_fifo,
            );
            let count = run.argv@.len() as int;
            let at = arguments.len() - count - 1;
            &&& at >= 0
            &&& arguments[at] == "--"@
            &&& arguments.subrange(at + 1, arguments.len() as int) == crate::text::strings(
                run.argv@,
            )
        }),
{
    let arguments = helper_arguments_spec(config, run, disk, network, parent_pid, control_fifo);
    let count = run.argv@.len() as int;
    let at = arguments.len() - count - 1;
    assert(crate::text::strings(run.argv@).len() == count);
    assert(arguments[at] == "--"@);
    assert(arguments.subrange(at + 1, arguments.len() as int) =~= crate::text::strings(run.argv@));
}

pub const CONTROL_MESSAGE_BYTES: usize = 5;

pub const CONTROL_RESIZE: u8 = 1;

pub const CONTROL_INTERRUPT: u8 = 2;

pub const CONTROL_TERMINATE: u8 = 3;

pub const CONTROL_HANGUP: u8 = 4;

/// The frame that resizes a guest's terminal: an operation and two big-endian numbers.
pub open spec fn resize_bytes(rows: u16, cols: u16) -> Seq<u8> {
    seq![
        CONTROL_RESIZE,
        (rows / 256) as u8,
        (rows % 256) as u8,
        (cols / 256) as u8,
        (cols % 256) as u8,
    ]
}

/// The operation of a signal in the control pipe; a kill has none.
pub open spec fn signal_opcode(signal: Signal) -> Option<u8> {
    match signal {
        Signal::Interrupt => Some(CONTROL_INTERRUPT),
        Signal::Terminate => Some(CONTROL_TERMINATE),
        Signal::Hangup => Some(CONTROL_HANGUP),
        Signal::Kill => None,
    }
}

/// Frames a new terminal size.
pub fn resize_frame(rows: u16, cols: u16) -> (frame: Result<[u8; 5], BackendError>)
    ensures
        match frame {
            Ok(bytes) => rows != 0 && cols != 0 && bytes@ == resize_bytes(rows, cols),
            Err(error) => (rows == 0 || cols == 0) && error@ == BackendErrorView::InvalidSpec(
                "terminal rows and columns must be non-zero"@,
            ),
        },
{
    if rows == 0 || cols == 0 {
        return Err(
            BackendError::InvalidSpec("terminal rows and columns must be non-zero".to_owned()),
        );
    }
    let bytes: [u8; 5] = [
        CONTROL_RESIZE,
        (rows / 256) as u8,
        (rows % 256) as u8,
        (cols / 256) as u8,
        (cols % 256) as u8,
    ];
    assert(bytes@ =~= resize_bytes(rows, cols));
    Ok(bytes)
}

/// Frames a signal.
pub fn signal_frame(signal: Signal) -> (frame: Result<[u8; 5], BackendError>)
    ensures
        match frame {
            Ok(bytes) => signal_opcode(signal) is Some && bytes@ == seq![
                signal_opcode(signal)->0,
                0u8,
                0u8,
                0u8,
                0u8,
            ],
            Err(error) => signal_opcode(signal) is None && error@ == BackendErrorView::Control(
                "kill cannot be sent through the guest control pipe"@,
            ),
        },
{
    let opcode: u8 = match signal {
        Signal::Interrupt => CONTROL_INTERRUPT,
        Signal::Terminate => CONTROL_TERMINATE,
        Signal::Hangup => CONTROL_HANGUP,
        Signal::Kill => {
            return Err(
                BackendError::Control(
                    "kill cannot be sent through the guest control pipe".to_owned(),
                ),
            );
        },
    };
    let bytes: [u8; 5] = [opcode, 0, 0, 0, 0];
    assert(bytes@ =~= seq![opcode, 0u8, 0u8, 0u8, 0u8]);
    Ok(bytes)
}

/// How a signal reaches a machine.
#[derive(Debug, Clone, Copy, PartialEq, Eq, Structural)]
pub enum SignalRoute {
    /// As a frame through the control pipe.
    ControlPipe,
    /// To the helper's process group.
    ProcessGroup { target: i32, number: i32 },
    /// The helper's process number cannot be a host's.
    Impossible,
}

/// How a signal reaches a machine.
pub open spec fn route_of(has_control_pipe: bool, signal: Signal, pid: u32) -> SignalRoute {
    if has_control_pipe && signal != Signal::Kill {
        SignalRoute::ControlPipe
    } else if pid <= i32::MAX {
        SignalRoute::ProcessGroup {
            target: -(pid as int) as i32,
            number: crate::process::signal_number_spec(signal),
        }
    } else {
        SignalRoute::Impossible
    }
}

/// A kill goes to the helper itself; every other signal goes through the control pipe where there
/// is one.
pub fn signal_route(has_control_pipe: bool, signal: Signal, pid: u32) -> (route: SignalRoute)
    ensures
        route == route_of(has_control_pipe, signal, pid),
        route == (if has_control_pipe && signal != Signal::Kill {
            SignalRoute::ControlPipe
        } else if pid <= i32::MAX {
            SignalRoute::ProcessGroup {
                target: -(pid as int) as i32,
                number: crate::process::signal_number_spec(signal),
            }
        } else {
            SignalRoute::Impossible
        }),
{
    if has_control_pipe && signal != Signal::Kill {
        return SignalRoute::ControlPipe;
    }
    match signal_target(pid) {
        Some(target) => SignalRoute::ProcessGroup { target, number: signal_number(signal) },
        None => SignalRoute::Impossible,
    }
}

/// An exit of the helper that leaves the guest's disk clean: an ordinary code that stands neither
/// for a failed machine nor for a killed one.
pub open spec fn clean_exit(exit: ExitParts) -> bool {
    exit.signal is None && exit.code is Some && exit.code != Some(125i32) && exit.code != Some(
        137i32,
    )
}

/// Whether an exit of the helper leaves the guest's disk clean.
pub fn helper_exit_is_clean(exit: ExitParts) -> (clean: bool)
    ensures
        clean == clean_exit(exit),
{
    match exit.code {
        Some(code) => exit.signal.is_none() && code != 125 && code != 137,
        None => false,
    }
}

/// Whether the end of a machine lets its box be recorded as clean.
pub open spec fn marks_clean(exit: Result<ExitParts, String>, has_lease: bool) -> bool {
    match exit {
        Ok(parts) => has_lease && clean_exit(parts),
        Err(_) => false,
    }
}

/// Whether the end of a machine lets its box be recorded as clean: only a known, clean exit does.
pub fn exit_marks_clean(exit: &Result<ExitParts, String>, has_lease: bool) -> (marks: bool)
    ensures
        marks == marks_clean(*exit, has_lease),
        marks == (has_lease && exit is Ok && clean_exit(exit->Ok_0)),
{
    match exit {
        Ok(parts) => has_lease && helper_exit_is_clean(*parts),
        Err(_) => false,
    }
}

/// A machine that was killed, that failed as a machine, or whose exit is unknown never leaves its
/// box clean.
pub proof fn law_only_clean_exits_are_clean(exit: ExitParts)
    ensures
        exit.signal is Some ==> !clean_exit(exit),
        exit.code is None ==> !clean_exit(exit),
        exit.code == Some(125i32) || exit.code == Some(137i32) ==> !clean_exit(exit),
{
}

/// What the end of a machine comes to.
pub open spec fn settled_exit(
    exit: Result<ExitParts, String>,
    root_cleanup: Result<(), String>,
    network_cleanup: Result<(), String>,
) -> Result<ExitParts, String> {
    match (root_cleanup, exit, network_cleanup) {
        (Err(error), _, _) => Err(error),
        (Ok(()), Err(error), _) => Err(error),
        (Ok(()), Ok(_), Err(error)) => Err(error),
        (Ok(()), Ok(parts), Ok(())) => Ok(parts),
    }
}

/// What the end of a machine comes to: a root that could not be settled, then a network that could
/// not be taken down after a known exit, then the exit itself.
pub fn settle_exit(
    exit: Result<ExitParts, String>,
    root_cleanup: Result<(), String>,
    network_cleanup: Result<(), String>,
) -> (settled: Result<ExitParts, String>)
    ensures
        settled == settled_exit(exit, root_cleanup, network_cleanup),
        match settled {
            Ok(parts) => root_cleanup is Ok && network_cleanup is Ok && exit == Ok::<
                ExitParts,
                String,
            >(parts),
            Err(error) => {
                ||| root_cleanup == Err::<(), String>(error)
                ||| root_cleanup is Ok && exit is Ok && network_cleanup == Err::<(), String>(error)
                ||| root_cleanup is Ok && exit == Err::<ExitParts, String>(error)
            },
        },
{
    match root_cleanup {
        Err(error) => {
            return Err(error);
        },
        Ok(()) => {},
    }
    match exit {
        Err(error) => Err(error),
        Ok(parts) => match network_cleanup {
            Err(error) => Err(error),
            Ok(()) => Ok(parts),
        },
    }
}

/// The error of a helper that could not be started, with what became of its network behind it.
pub open spec fn spawn_error_of(
    error: BackendErrorView,
    proxy_cleanup: Option<Seq<char>>,
) -> BackendErrorView {
    match proxy_cleanup {
        None => error,
        Some(cleanup) => BackendErrorView::Control(
            error.text() + "; failed to reap gvproxy after helper spawn failure: "@ + cleanup,
        ),
    }
}

/// The error of a helper that could not be started, with what became of its network behind it.
pub fn helper_spawn_error(error: BackendError, proxy_cleanup: Option<String>) -> (reported:
    BackendError)
    ensures
        reported@ == spawn_error_of(error@, crate::text::text_of(proxy_cleanup)),
{
    match proxy_cleanup {
        None => error,
        Some(cleanup) => BackendError::Control(
            join3(
                error.message().as_str(),
                "; failed to reap gvproxy after helper spawn failure: ",
                cleanup.as_str(),
            ),
        ),
    }
}

} // verus!
