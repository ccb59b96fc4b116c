use moraebox::backend::{OutputChannel, Signal};
use moraebox::helper::agent::{bounded_diagnostic, AgentPhase, CommandEnd};
use moraebox::helper::archive::{split_parts, valid_archive_path, valid_archive_symlink};
use moraebox::helper::bridge::{
    decode_parent_control, exec_frame, forward_stdin, frame_length, protocol_exit_code,
    relay_signal, request_copies, required_capabilities, send_copy_in, take_transfer_id,
    validate_agent_hello, Bridge, BridgeAction, BridgeError, ExecRequest, GuestFrame, HostFrame,
    PendingCopy, StdinRead, StdinStep, WireChannel,
};
use moraebox::helper::environment::{effective_environment, parse_env};
use moraebox::helper::plan::{
    check_call, configure_console, configure_network, configure_networking, configure_root,
    configure_root_disk, configure_workspace_disk, network_mac, plan_machine, start_result,
    KrunCall, KrunSymbols, NETWORK_FEATURES, NETWORK_FLAGS,
};
use moraebox::helper::transfer::{
    check_destination, check_parent, digest_text, eq_ignore_ascii_case, extract_copy_archive,
    plan_extraction, CopyArchive, ExtractStep, ParentKind, ReceivedCopy, SourceEntry, TarEntry,
};
use moraebox::helper::walk::{CopyWalk, WalkRequest};
use moraebox::helper::{
    exit_code, CopyFacts, HelperError, HelperRequest, SourceKind, CONTROL_VSOCK_PORT,
};
use moraebox::libkrun::{
    CopySpec, CONTROL_HANGUP, CONTROL_INTERRUPT, CONTROL_RESIZE, CONTROL_TERMINATE,
};
use std::io;

const EVERY_SYMBOL: KrunSymbols = KrunSymbols {
    set_root: true,
    add_virtiofs3: true,
    disable_implicit_vsock: true,
    add_vsock_port: true,
    add_net_unixgram: true,
    add_disk: true,
    set_root_disk_remount: true,
    disable_implicit_console: true,
    add_virtio_console_default: true,
};

fn request() -> HelperRequest {
    HelperRequest {
        root: None,
        root_disk: Some("/tmp/root.ext4".to_owned()),
        debugfs: Some("/usr/sbin/debugfs".to_owned()),
        session_id: Some("session".to_owned()),
        cpus: 2,
        memory_mib: 512,
        cwd: None,
        workspace_disk: None,
        workspace_writable: false,
        network_socket: None,
        tty: false,
        tty_rows: 24,
        tty_cols: 80,
        environment: vec![],
        copy_in_sources: vec![],
        copy_in_destinations: vec![],
        copy_out_sources: vec![],
        copy_out_destinations: vec![],
        copy_limit_bytes: 1024,
        command: vec!["/bin/true".to_owned()],
    }
}

fn no_copies() -> CopyFacts {
    CopyFacts {
        copy_in: vec![],
        copy_out: vec![],
        max_transfer: 1 << 30,
    }
}

fn refusal(request: &HelperRequest, facts: &CopyFacts) -> String {
    request.check(facts).unwrap_err().message()
}

#[test]
fn rejects_invalid_environment() {
    assert!(parse_env("MISSING").is_err());
    assert!(parse_env("=value").is_err());
    assert_eq!(
        parse_env("A=1=2").unwrap(),
        ("A".to_owned(), "1=2".to_owned())
    );
    assert_eq!(parse_env("A=").unwrap(), ("A".to_owned(), String::new()));
}

#[test]
fn later_values_replace_earlier_ones() {
    let pair = |name: &str, value: &str| (name.to_owned(), value.to_owned());
    let lines = effective_environment(&vec![
        pair("TERM", "dumb"),
        pair("B", "1"),
        pair("A", "2"),
        pair("B", "3"),
    ]);
    assert_eq!(lines, ["A=2", "B=3", "TERM=dumb"]);
}

#[test]
fn adds_writable_root_disk_before_configuring_the_pivot() {
    let plan = configure_root_disk("/tmp/root.ext4", EVERY_SYMBOL);
    assert!(plan.failure.is_none());
    assert_eq!(plan.calls.len(), 2);
    assert!(matches!(&plan.calls[0], KrunCall::AddRootDisk(path) if path == "/tmp/root.ext4"));
    assert!(matches!(&plan.calls[1], KrunCall::SetRootDiskRemount));
}

#[test]
fn root_disks_need_the_disk_api() {
    let mut symbols = EVERY_SYMBOL;
    symbols.add_disk = false;
    assert!(matches!(
        configure_root_disk("/tmp/root.ext4", symbols).failure,
        Some(HelperError::MissingDiskApi)
    ));
    symbols = EVERY_SYMBOL;
    symbols.set_root_disk_remount = false;
    assert!(matches!(
        configure_root_disk("/tmp/root.ext4", symbols).failure,
        Some(HelperError::MissingRootDiskApi)
    ));
}

#[test]
fn directory_roots_need_a_root_api() {
    let plan = configure_root("/srv/root", EVERY_SYMBOL);
    assert!(matches!(&plan.calls[0], KrunCall::SetRoot(path) if path == "/srv/root"));
    let mut symbols = EVERY_SYMBOL;
    symbols.set_root = false;
    let plan = configure_root("/srv/root", symbols);
    assert!(matches!(&plan.calls[0], KrunCall::AddVirtiofs(path) if path == "/srv/root"));
    symbols.add_virtiofs3 = false;
    let plan = configure_root("/srv/root", symbols);
    assert!(plan.calls.is_empty());
    assert!(matches!(plan.failure, Some(HelperError::MissingRootApi)));
    let plan = configure_root("/srv/\0root", EVERY_SYMBOL);
    assert!(matches!(plan.failure, Some(HelperError::Nul(5))));
}

#[test]
fn disables_implicit_console_before_adding_explicit_console() {
    let plan = configure_console(0, 1, 2, EVERY_SYMBOL);
    assert!(plan.failure.is_none());
    assert_eq!(plan.calls.len(), 2);
    assert!(matches!(&plan.calls[0], KrunCall::DisableImplicitConsole));
    assert!(matches!(
        &plan.calls[1],
        KrunCall::AddConsole {
            input: 0,
            output: 1,
            error: 2
        }
    ));
}

#[test]
fn keeps_implicit_console_when_disable_api_is_unavailable() {
    let mut symbols = EVERY_SYMBOL;
    symbols.disable_implicit_console = false;
    let plan = configure_console(0, 1, 2, symbols);
    assert!(plan.failure.is_none());
    assert_eq!(plan.calls.len(), 0);
}

#[test]
fn configures_gvproxy_without_tsi_features() {
    let mut symbols = EVERY_SYMBOL;
    symbols.add_vsock_port = false;
    let plan = configure_networking(&None, &Some("/tmp/gvproxy.sock".to_owned()), symbols);
    assert!(plan.failure.is_none());
    assert_eq!(plan.calls.len(), 3);
    assert!(matches!(&plan.calls[0], KrunCall::DisableImplicitVsock));
    assert!(matches!(&plan.calls[1], KrunCall::AddVsock));
    assert!(matches!(&plan.calls[2], KrunCall::AddNetwork(path) if path == "/tmp/gvproxy.sock"));
    assert_eq!(NETWORK_FLAGS & !0b11, 0);
    assert_eq!(NETWORK_FEATURES, 0x4c83);
    assert_eq!(network_mac(), [0x5a, 0x94, 0xef, 0xe4, 0x0c, 0xee]);
}

#[test]
fn network_off_still_adds_control_vsock_with_tsi_disabled() {
    let mut symbols = EVERY_SYMBOL;
    symbols.add_vsock_port = false;
    let plan = configure_networking(&None, &None, symbols);
    assert!(plan.failure.is_none());
    assert_eq!(plan.calls.len(), 2);
    assert!(matches!(&plan.calls[0], KrunCall::DisableImplicitVsock));
    assert!(matches!(&plan.calls[1], KrunCall::AddVsock));
}

#[test]
fn maps_the_control_port_after_adding_a_tsi_disabled_vsock() {
    let mut symbols = EVERY_SYMBOL;
    symbols.add_net_unixgram = false;
    let plan = configure_networking(&Some("/tmp/control.sock".to_owned()), &None, symbols);
    assert!(plan.failure.is_none());
    assert_eq!(plan.calls.len(), 3);
    assert!(matches!(&plan.calls[0], KrunCall::DisableImplicitVsock));
    assert!(matches!(&plan.calls[1], KrunCall::AddVsock));
    assert!(matches!(
        &plan.calls[2],
        KrunCall::AddVsockPort { port, path }
            if *port == CONTROL_VSOCK_PORT && path == "/tmp/control.sock"
    ));
}

#[test]
fn network_requires_the_released_libkrun_api() {
    let mut symbols = EVERY_SYMBOL;
    symbols.add_net_unixgram = false;
    let plan = configure_network("/tmp/gvproxy.sock", symbols);
    assert!(plan.calls.is_empty());
    assert!(matches!(plan.failure, Some(HelperError::MissingNetworkApi)));
}

#[test]
fn control_needs_the_port_api() {
    let mut symbols = EVERY_SYMBOL;
    symbols.disable_implicit_vsock = false;
    let plan = configure_networking(&None, &None, symbols);
    assert_eq!(plan.calls.len(), 1);
    assert!(matches!(&plan.calls[0], KrunCall::AddVsock));
    assert!(plan.failure.is_none());
    symbols = EVERY_SYMBOL;
    symbols.add_vsock_port = false;
    let plan = configure_networking(&Some("/c".to_owned()), &None, symbols);
    assert_eq!(plan.calls.len(), 2);
    assert!(matches!(
        plan.failure,
        Some(HelperError::MissingVsockPortApi)
    ));
}

#[test]
fn workspaces_are_read_only_disks() {
    assert!(configure_workspace_disk(&None, EVERY_SYMBOL).calls.is_empty());
    let plan = configure_workspace_disk(&Some("/w.ext4".to_owned()), EVERY_SYMBOL);
    assert!(matches!(&plan.calls[0], KrunCall::AddWorkspaceDisk(path) if path == "/w.ext4"));
    assert_eq!(
        plan.calls[0].operation(),
        "krun_add_disk(workspace, read_only=true)"
    );
}

#[test]
fn machines_are_configured_in_one_order() {
    let mut whole = request();
    whole.workspace_disk = Some("/w.ext4".to_owned());
    let plan = plan_machine(&whole, EVERY_SYMBOL, &Some("/c.sock".to_owned()), 5);
    assert!(plan.failure.is_none());
    let names: Vec<&str> = plan.calls.iter().map(|call| call.operation()).collect();
    assert_eq!(names[0], "krun_set_vm_config");
    assert_eq!(names[1], "krun_add_disk(root, read_only=false)");
    assert_eq!(names[2], "krun_set_root_disk_remount(/dev/vda, ext4)");
    assert!(!names.contains(&"krun_add_net_unixgram"));
    assert_eq!(*names.last().unwrap(), "krun_set_exec");
    assert!(matches!(
        plan.calls.last().unwrap(),
        KrunCall::SetExec { executable, arguments, environment }
            if executable == "/.moraebox-agent"
                && *arguments
                    == [
                        "--port",
                        "1070",
                        "--session",
                        "session",
                        "--workspace-device",
                        "/dev/vdb",
                    ]
                && environment.is_empty()
    ));
}

#[test]
fn negative_results_are_errors() {
    assert!(check_call("krun_set_exec", 0).is_ok());
    assert!(check_call("krun_set_exec", 7).is_ok());
    assert_eq!(
        check_call("krun_set_exec", -22).unwrap_err().message(),
        "krun_set_exec failed with libkrun error -22"
    );
    assert_eq!(start_result(3, false).unwrap(), 3);
    assert!(matches!(
        start_result(0, true),
        Err(HelperError::BridgeThread)
    ));
    assert!(matches!(
        start_result(-1, true),
        Err(HelperError::KrunCall { code: -1, .. })
    ));
    assert_eq!(exit_code(-5), 0);
    assert_eq!(exit_code(300), 255);
    assert_eq!(exit_code(42), 42);
}

#[test]
fn requests_are_checked_before_anything_runs() {
    assert!(request().check(&no_copies()).is_ok());
    let mut bad = request();
    bad.cpus = 0;
    assert_eq!(
        refusal(&bad, &no_copies()),
        "invalid helper request: CPU and memory limits must be non-zero"
    );
    bad = request();
    bad.memory_mib = 0;
    assert_eq!(
        refusal(&bad, &no_copies()),
        "invalid helper request: CPU and memory limits must be non-zero"
    );
    bad = request();
    bad.command = vec![];
    assert_eq!(
        refusal(&bad, &no_copies()),
        "invalid helper request: command must not be empty"
    );
    bad = request();
    bad.tty = true;
    bad.tty_rows = 0;
    assert_eq!(
        refusal(&bad, &no_copies()),
        "invalid helper request: terminal rows and columns must be non-zero"
    );
    bad = request();
    bad.debugfs = None;
    assert_eq!(
        refusal(&bad, &no_copies()),
        "invalid helper request: --debugfs is required with --root-disk"
    );
    bad = request();
    bad.session_id = Some(String::new());
    assert_eq!(
        refusal(&bad, &no_copies()),
        "invalid helper request: session ID must not be empty"
    );
    bad = request();
    bad.root_disk = None;
    bad.root = Some("/root".to_owned());
    bad.workspace_disk = Some("/w.ext4".to_owned());
    assert_eq!(
        refusal(&bad, &no_copies()),
        "host platform is unsupported: workspace mounting requires a block root and the guest control agent"
    );
    bad = request();
    bad.copy_in_sources = vec!["/a".to_owned()];
    let mut facts = no_copies();
    facts.copy_in = vec![(None, SourceKind::File)];
    assert_eq!(
        refusal(&bad, &facts),
        "invalid copy request: --copy-in-source and --copy-in-destination counts differ"
    );
    bad = request();
    bad.copy_limit_bytes = 0;
    assert_eq!(
        refusal(&bad, &no_copies()),
        "invalid copy request: --copy-limit-bytes must be in 1..=1073741824"
    );
    assert_eq!(request().working_directory(), "");
    let mut placed = request();
    placed.workspace_disk = Some("/w.ext4".to_owned());
    assert_eq!(placed.working_directory(), "/workspace");
    placed.cwd = Some("/here".to_owned());
    assert_eq!(placed.working_directory(), "/here");
}

#[test]
fn copies_are_paired_and_named() {
    let mut copying = request();
    copying.copy_in_sources = vec!["/host/a".to_owned()];
    copying.copy_in_destinations = vec!["/guest/a".to_owned()];
    copying.copy_out_sources = vec!["/guest/b".to_owned()];
    copying.copy_out_destinations = vec!["/host/b".to_owned()];
    let facts = |kind: SourceKind, exists: bool| CopyFacts {
        copy_in: vec![(None, kind)],
        copy_out: vec![(None, exists)],
        max_transfer: 1024,
    };
    let valid = copying.check(&facts(SourceKind::File, false)).unwrap();
    assert_eq!(valid.copy_in[0].destination, "/guest/a");
    assert_eq!(valid.copy_out[0].source, "/guest/b");
    assert_eq!(
        refusal(&copying, &facts(SourceKind::Symlink, false)),
        "invalid copy request: copy-in source must be a regular file or directory: /host/a"
    );
    assert_eq!(
        refusal(&copying, &facts(SourceKind::Other, false)),
        "invalid copy request: copy-in source must be a regular file or directory: /host/a"
    );
    assert_eq!(
        refusal(
            &copying,
            &facts(SourceKind::Missing("gone".to_owned()), false)
        ),
        "invalid copy request: cannot inspect /host/a: gone"
    );
    assert_eq!(
        refusal(&copying, &facts(SourceKind::File, true)),
        "invalid copy request: copy-out destination already exists: /host/b"
    );
    copying.copy_out_destinations = vec!["relative".to_owned()];
    assert_eq!(
        refusal(&copying, &facts(SourceKind::File, false)),
        "invalid copy request: copy-out destination must be absolute: relative"
    );
}

#[test]
fn repeated_destinations_are_refused() {
    let mut copying = request();
    copying.copy_in_sources = vec!["/a".to_owned(), "/b".to_owned()];
    copying.copy_in_destinations = vec!["/x \"y".to_owned(), "/x \"y".to_owned()];
    let facts = CopyFacts {
        copy_in: vec![(None, SourceKind::File), (None, SourceKind::Directory)],
        copy_out: vec![],
        max_transfer: 1024,
    };
    assert_eq!(
        refusal(&copying, &facts),
        "invalid copy request: duplicate guest copy-in destination \"/x \\\"y\""
    );
    let mut leaving = request();
    leaving.copy_out_sources = vec!["/a".to_owned(), "/b".to_owned()];
    leaving.copy_out_destinations = vec!["/host/out".to_owned(), "/host//out".to_owned()];
    let facts = CopyFacts {
        copy_in: vec![],
        copy_out: vec![(None, false), (None, false)],
        max_transfer: 1024,
    };
    assert_eq!(
        refusal(&leaving, &facts),
        "invalid copy request: duplicate host copy-out destination /host//out"
    );
    let refused = CopyFacts {
        copy_in: vec![],
        copy_out: vec![(Some("not absolute".to_owned()), false), (None, false)],
        max_transfer: 1024,
    };
    assert_eq!(
        refusal(&leaving, &refused),
        "invalid copy request: not absolute"
    );
}

#[test]
fn trusted_agent_is_written_verified_and_made_executable() {
    let done = |stdout: &[u8]| CommandEnd {
        success: true,
        status: Some(0),
        stdout: stdout.to_vec(),
        stderr: vec![],
    };
    let agent = b"\x7fELF agent";
    let mut phase = AgentPhase::Removing;
    let mut requests = Vec::new();
    while let Some(request) = phase.request() {
        requests.push(request);
        let output: &[u8] = if request.starts_with("stat ") {
            b"Inode: 12 Type: regular Mode:  0755\n"
        } else {
            b""
        };
        phase = phase.step(done(output)).unwrap();
    }
    assert_eq!(requests.len(), 5);
    assert_eq!(phase, AgentPhase::Comparing);
    assert_eq!(
        phase.compare(agent, agent).unwrap(),
        AgentPhase::Installed
    );
    assert!(matches!(
        phase.compare(b"other", agent),
        Err(HelperError::GuestAgentVerification(_))
    ));
    assert!(matches!(
        AgentPhase::Inspecting.step(done(b"Type: directory Mode: 0755")),
        Err(HelperError::GuestAgentVerification(_))
    ));
    assert!(matches!(
        AgentPhase::Writing.step(CommandEnd {
            success: false,
            status: Some(1),
            stdout: vec![],
            stderr: b"no space\n".to_vec(),
        }),
        Err(HelperError::Debugfs { status: Some(1), .. })
    ));
}

#[test]
fn long_diagnostics_are_cut() {
    assert_eq!(bounded_diagnostic(b" short \n"), "short");
    assert_eq!(bounded_diagnostic(&[b'x'; 100_000]).len(), 4096);
}

#[test]
fn parent_control_frames_are_strict_and_typed() {
    assert!(matches!(
        decode_parent_control([CONTROL_RESIZE, 0, 41, 0, 99]),
        Some(HostFrame::Resize { rows: 41, cols: 99 })
    ));
    assert!(matches!(
        decode_parent_control([CONTROL_TERMINATE, 0, 0, 0, 0]),
        Some(HostFrame::Signal(signal)) if signal == Signal::Terminate
    ));
    assert!(decode_parent_control([CONTROL_RESIZE, 0, 0, 0, 99]).is_none());
    assert!(decode_parent_control([u8::MAX, 0, 0, 0, 0]).is_none());
    assert!(matches!(
        decode_parent_control([CONTROL_INTERRUPT, 0, 0, 0, 0]),
        Some(HostFrame::Signal(Signal::Interrupt))
    ));
    assert!(matches!(
        decode_parent_control([CONTROL_HANGUP, 0, 0, 0, 0]),
        Some(HostFrame::Signal(Signal::Hangup))
    ));
}

#[test]
fn hello_requires_every_execution_capability() {
    let error = validate_agent_hello("test", &vec!["exec".to_owned()]).unwrap_err();
    assert!(matches!(error, BridgeError::MissingCapabilities(_)));
    let all: Vec<String> = required_capabilities()
        .into_iter()
        .map(str::to_owned)
        .collect();
    assert!(validate_agent_hello("test", &all).is_ok());
    assert!(matches!(
        validate_agent_hello("", &all),
        Err(BridgeError::MissingAgentVersion)
    ));
}

#[test]
fn protocol_exit_status_controls_helper_status() {
    assert_eq!(protocol_exit_code(23, None).unwrap(), 23);
    assert_eq!(protocol_exit_code(0, Some(15)).unwrap(), 143);
    assert!(protocol_exit_code(1, Some(15)).is_err());
    assert!(protocol_exit_code(-1, None).is_err());
    assert!(protocol_exit_code(256, None).is_err());
}

#[test]
fn copy_archive_round_trips_without_following_links() {
    let mut walk = CopyWalk::begin("/source".to_owned(), 1024 * 1024);
    let mut inspected = Vec::new();
    loop {
        match walk.request().unwrap() {
            WalkRequest::Inspect(path) => {
                let (entry, mode) = match path.as_str() {
                    "/source" => (SourceEntry::Directory, 0o755),
                    "/source/link" => (SourceEntry::Symlink("value".to_owned()), 0o777),
                    _ => (SourceEntry::File(b"hello".to_vec()), 0o100644),
                };
                walk.take(&entry, mode).unwrap();
                inspected.push(path);
            }
            WalkRequest::List(path) => {
                assert_eq!(path, "/source");
                walk.list(vec!["value".to_owned(), "link".to_owned()]);
            }
            WalkRequest::Finished => break,
        }
    }
    assert_eq!(inspected, ["/source", "/source/link", "/source/value"]);
    let archive = walk.finish().unwrap();
    assert!(archive.size > 0);
    assert!(archive.digest.starts_with("sha256:"));
    assert_eq!(archive.size as usize, archive.bytes.len());

    let (steps, failure) = extract_copy_archive(&archive.bytes);
    assert!(failure.is_none());
    let mut files = Vec::new();
    let mut links = Vec::new();
    for step in &steps {
        match step {
            ExtractStep::CreateFile {
                path,
                position,
                size,
                ..
            } => {
                let start = *position as usize;
                let end = start + *size as usize;
                files.push((path.clone(), archive.bytes[start..end].to_vec()));
            }
            ExtractStep::CreateLink { path, target } => {
                links.push((path.clone(), target.clone()));
            }
            _ => {}
        }
    }
    assert_eq!(files.len(), 1);
    assert!(files[0].0.ends_with(b"value"));
    assert_eq!(files[0].1, b"hello");
    assert_eq!(links.len(), 1);
    assert!(links[0].0.ends_with(b"link"));
    assert_eq!(links[0].1, b"value");
}

#[test]
fn copy_archive_rejects_traversal_and_escaping_links() {
    assert!(valid_archive_symlink(b"root/directory/link", b"../value"));
    assert!(!valid_archive_symlink(b"root/link", b"../../outside"));
    assert!(!valid_archive_symlink(b"root", b"outside"));

    let mut encoded = Vec::new();
    {
        let mut builder = tar::Builder::new(&mut encoded);
        let mut root = tar::Header::new_gnu();
        root.set_entry_type(tar::EntryType::Directory);
        root.set_mode(0o755);
        root.set_size(0);
        root.set_cksum();
        builder.append_data(&mut root, "root", io::empty()).unwrap();
        let mut bad = tar::Header::new_gnu();
        bad.set_entry_type(tar::EntryType::Regular);
        bad.set_mode(0o600);
        bad.set_size(0);
        let name = b"root/../../escape";
        bad.as_mut_bytes()[..name.len()].copy_from_slice(name);
        bad.set_cksum();
        builder.append(&bad, io::empty()).unwrap();
        builder.finish().unwrap();
    }
    let (steps, failure) = extract_copy_archive(&encoded);
    assert!(failure.is_some());
    assert!(!steps.iter().any(|step| matches!(
        step,
        ExtractStep::CreateFile { path, .. } if path.ends_with(b"escape")
    )));
}

#[test]
fn archive_names_stay_below_the_root() {
    assert!(valid_archive_path(b"root"));
    assert!(valid_archive_path(b"root/a/b"));
    assert!(!valid_archive_path(b""));
    assert!(!valid_archive_path(b"/root"));
    assert!(!valid_archive_path(b"root/.."));
    assert!(!valid_archive_path(b"other/a"));
    assert!(!valid_archive_symlink(b"root/a", b"/etc/passwd"));
    assert_eq!(split_parts(b"a//b/"), [b"a".to_vec(), b"b".to_vec()]);
}

fn entry(path: &[u8], kind: u8, link: Option<&[u8]>) -> TarEntry {
    TarEntry {
        path: path.to_vec(),
        kind,
        mode: Ok(0o7755),
        link: link.map(<[u8]>::to_vec),
        position: 512,
        size: 0,
    }
}

#[test]
fn repeated_and_special_entries_are_refused() {
    let (_, failure) = plan_extraction(
        vec![
            entry(b"root", b'5', None),
            entry(b"root/a", b'0', None),
            entry(b"root/a", b'0', None),
        ],
        None,
    );
    assert!(matches!(failure, Some(BridgeError::UnsafeCopyArchive(_))));
    let (_, failure) = plan_extraction(vec![entry(b"root", b'1', Some(b"root"))], None);
    assert!(matches!(failure, Some(BridgeError::UnsafeCopyArchive(_))));
    let (_, failure) = plan_extraction(
        vec![
            entry(b"root", b'5', None),
            entry(b"root/l", b'2', Some(b"../..")),
        ],
        None,
    );
    assert!(matches!(failure, Some(BridgeError::UnsafeCopyArchive(_))));
    let (_, failure) = plan_extraction(vec![], Some("truncated".to_owned()));
    assert!(matches!(failure, Some(BridgeError::Io(text)) if text == "truncated"));
}

#[test]
fn archives_are_bounded() {
    let mut small = CopyArchive::new(600);
    assert!(matches!(
        small.append_copy_entry(
            "/a",
            "root",
            &SourceEntry::File(vec![0; 512]),
            0o644
        ),
        Err(BridgeError::Io(text)) if text == "copy archive exceeds its byte limit"
    ));
    let mut odd = CopyArchive::new(1 << 20);
    assert!(matches!(
        odd.append_copy_entry("/a", "root", &SourceEntry::Other, 0o644),
        Err(BridgeError::UnsafeCopyArchive(_))
    ));
}

#[test]
fn digests_are_those_of_sha256() {
    assert_eq!(
        digest_text(b"abc"),
        "sha256:ba7816bf8f01cfea414140de5dae2223b00361a396177a9cb410ff61f20015ad"
    );
    assert_eq!(
        digest_text(b""),
        "sha256:e3b0c44298fc1c149afbf4c8996fb92427ae41e4649b934ca495991b7852b855"
    );
    assert!(eq_ignore_ascii_case("SHA256:aB", "sha256:Ab"));
    assert!(!eq_ignore_ascii_case("sha256:a", "sha256:b"));
}

#[test]
fn received_copies_are_counted_and_hashed() {
    let mut copy = ReceivedCopy::new(3, "/host".to_owned(), 4);
    assert!(copy.append(3, b"ab").is_ok());
    assert!(matches!(
        copy.append(4, b"c"),
        Err(BridgeError::UnexpectedCopyTransfer(4))
    ));
    assert!(matches!(
        copy.append(3, b"xyz"),
        Err(BridgeError::CopyLimitExceeded(4))
    ));
    assert!(copy.append(3, b"c").is_ok());
    assert!(matches!(
        copy.finish(3, 4, "sha256:"),
        Err(BridgeError::CopySizeMismatch {
            expected: 4,
            actual: 3
        })
    ));
    assert!(matches!(
        copy.finish(3, 3, "sha256:00"),
        Err(BridgeError::CopyDigestMismatch)
    ));
    assert!(copy
        .finish(
            3,
            3,
            "sha256:BA7816BF8F01CFEA414140DE5DAE2223B00361A396177A9CB410FF61F20015AD"
        )
        .is_ok());
}

#[test]
fn extraction_meets_only_directories() {
    assert!(check_parent(ParentKind::Directory).is_ok());
    assert!(check_parent(ParentKind::NotDirectory).is_err());
    assert!(check_parent(ParentKind::Symlink).is_err());
    assert!(matches!(
        check_parent(ParentKind::Missing("gone".to_owned())),
        Err(BridgeError::Io(_))
    ));
    assert_eq!(check_destination("/host/out", false).unwrap(), "/host");
    assert!(matches!(
        check_destination("/host/out", true),
        Err(BridgeError::CopyDestinationExists(_))
    ));
}

#[test]
fn frames_have_a_bounded_length() {
    assert_eq!(frame_length([0, 0, 1, 2], 1024).unwrap(), 258);
    assert!(matches!(
        frame_length([0, 0, 4, 1], 1024),
        Err(BridgeError::FrameTooLarge(1025))
    ));
}

#[test]
fn signals_become_frames() {
    assert!(matches!(
        relay_signal(15, false, None),
        Some(HostFrame::Signal(Signal::Terminate))
    ));
    assert!(matches!(
        relay_signal(28, true, Some((30, 100))),
        Some(HostFrame::Resize {
            rows: 30,
            cols: 100
        })
    ));
    assert!(relay_signal(28, false, Some((30, 100))).is_none());
    assert!(relay_signal(99, true, None).is_none());
}

#[test]
fn input_is_forwarded_until_it_ends() {
    assert!(matches!(
        forward_stdin(StdinRead::Data(b"x".to_vec())),
        StdinStep::Send(HostFrame::Stdin(data)) if data == b"x"
    ));
    assert!(matches!(
        forward_stdin(StdinRead::End),
        StdinStep::SendLast(HostFrame::StdinEof)
    ));
    assert!(matches!(
        forward_stdin(StdinRead::Interrupted),
        StdinStep::Retry
    ));
    assert!(matches!(forward_stdin(StdinRead::Failed), StdinStep::Stop));
}

#[test]
fn transfers_have_their_own_numbers() {
    let mut next: u64 = 7;
    assert_eq!(take_transfer_id(&mut next).unwrap(), 7);
    assert_eq!(next, 8);
    let mut last = u64::MAX;
    assert!(matches!(
        take_transfer_id(&mut last),
        Err(BridgeError::TransferIdsExhausted)
    ));
    let copies = vec![
        CopySpec {
            source: "/a".to_owned(),
            destination: "/x".to_owned(),
        },
        CopySpec {
            source: "/b".to_owned(),
            destination: "/y".to_owned(),
        },
    ];
    let (frames, pending) = request_copies(&copies, 99, &mut next).unwrap();
    assert_eq!(next, 10);
    assert!(matches!(
        &frames[1],
        HostFrame::CopyOutRequest { transfer_id: 9, source, max_bytes: 99 } if source == "/b"
    ));
    assert_eq!(pending[0].transfer_id, 8);
    assert_eq!(pending[0].destination, "/x");
}

#[test]
fn copies_are_sent_in_chunks() {
    let mut archive = CopyArchive::new(1 << 22);
    archive
        .append_copy_entry(
            "/big",
            "root",
            &SourceEntry::File(vec![7; 100_000]),
            0o600,
        )
        .unwrap();
    let prepared = archive.finish().unwrap();
    let frames = send_copy_in(5, "/guest", &prepared);
    assert!(matches!(
        &frames[0],
        HostFrame::CopyInStart { transfer_id: 5, destination, archive_size, sha256 }
            if destination == "/guest" && *archive_size == prepared.size && *sha256 == prepared.digest
    ));
    assert!(matches!(
        frames.last().unwrap(),
        HostFrame::CopyInEnd { transfer_id: 5 }
    ));
    let mut joined = Vec::new();
    for frame in &frames {
        if let HostFrame::CopyInChunk { data, .. } = frame {
            joined.extend_from_slice(data);
        }
    }
    assert_eq!(joined, prepared.bytes);
}

#[test]
fn execution_requests_carry_the_terminal() {
    let frame = exec_frame(ExecRequest {
        command: vec!["/bin/sh".to_owned()],
        cwd: "/work".to_owned(),
        environment: vec!["A=1".to_owned()],
        tty: true,
        rows: 30,
        cols: 90,
    });
    assert!(matches!(
        frame,
        HostFrame::Exec { argv, cwd, env, tty: true, rows: 30, cols: 90 }
            if argv == ["/bin/sh"] && cwd == "/work" && env == ["A=1"]
    ));
}

fn hello() -> GuestFrame {
    GuestFrame::Hello {
        agent_version: "test".to_owned(),
        capabilities: required_capabilities()
            .into_iter()
            .map(str::to_owned)
            .collect(),
    }
}

#[test]
fn bridges_begin_with_hello() {
    assert!(matches!(
        Bridge::begin(GuestFrame::Other, vec![], 10),
        Err(BridgeError::ExpectedHello)
    ));
    let mut bridge = Bridge::begin(hello(), vec![], 10).unwrap();
    assert!(matches!(
        bridge.step(GuestFrame::Output {
            channel: WireChannel::Known(OutputChannel::Stderr),
            data: b"e".to_vec(),
        }),
        Ok(BridgeAction::WriteStderr(data)) if data == b"e"
    ));
    assert!(matches!(
        bridge.step(GuestFrame::Output {
            channel: WireChannel::Unknown(9),
            data: vec![],
        }),
        Err(BridgeError::InvalidOutputChannel(9))
    ));
    assert!(matches!(
        bridge.step(hello()),
        Err(BridgeError::UnexpectedGuestPayload)
    ));
    assert!(matches!(
        bridge.step(GuestFrame::Shutdown {
            reason: "bye".to_owned()
        }),
        Err(BridgeError::AgentShutdown(reason)) if reason == "bye"
    ));
    assert!(matches!(
        bridge.step(GuestFrame::Exit {
            code: 4,
            signal: None
        }),
        Ok(BridgeAction::Exit(4))
    ));
}

#[test]
fn exits_wait_for_every_copy() {
    let pending = vec![PendingCopy {
        transfer_id: 1,
        destination: "/host".to_owned(),
    }];
    let mut bridge = Bridge::begin(hello(), pending, 10).unwrap();
    assert!(matches!(
        bridge.step(GuestFrame::CopyOutStart { transfer_id: 2 }),
        Err(BridgeError::UnexpectedCopyTransfer(2))
    ));
    let pending = vec![PendingCopy {
        transfer_id: 1,
        destination: "/host".to_owned(),
    }];
    let mut bridge = Bridge::begin(hello(), pending, 10).unwrap();
    assert!(bridge.step(GuestFrame::CopyOutStart { transfer_id: 1 }).is_ok());
    assert!(bridge
        .step(GuestFrame::CopyOutChunk {
            transfer_id: 1,
            data: b"abc".to_vec()
        })
        .is_ok());
    assert!(matches!(
        bridge.step(GuestFrame::CopyOutEnd {
            transfer_id: 1,
            total_bytes: 3,
            sha256: digest_text(b"abc"),
        }),
        Ok(BridgeAction::Extract { destination, archive })
            if destination == "/host" && archive == b"abc"
    ));
    assert!(matches!(
        bridge.step(GuestFrame::Exit {
            code: 0,
            signal: None
        }),
        Ok(BridgeAction::Exit(0))
    ));
    let pending = vec![PendingCopy {
        transfer_id: 1,
        destination: "/host".to_owned(),
    }];
    let mut early = Bridge::begin(hello(), pending, 10).unwrap();
    assert!(matches!(
        early.step(GuestFrame::Exit {
            code: 0,
            signal: None
        }),
        Err(BridgeError::IncompleteCopyOut)
    ));
}

#[test]
fn helper_errors_are_put_into_words() {
    assert_eq!(
        BridgeError::MissingCapabilities("tty, copy".to_owned()).message(),
        "guest agent is missing required capabilities: tty, copy"
    );
    assert!(HelperError::MissingNetworkApi.message().contains("krun_add_net_unixgram"));
}
