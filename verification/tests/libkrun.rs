use moraebox::backend::{Backend, BackendError, IsolationLevel, OutputChannel, RootMode, Signal};
use moraebox::libkrun::network::{
    append_bounded_tail, cleanup_network_proxy, gvproxy_arguments, helper_network_argument,
    policy_config_for_spec, proxy_socket_in, relay_frame, start_error, stderr_diagnostics, unix_socket_uri,
    vfkit_socket_uri, NetworkMode, NetworkPolicy, NetworkStart, ProxyPoll, ProxyVerdict, RelayEnd, StartEvent, StartFailure,
    StartPhase,
};
use moraebox::libkrun::root::{
    missing_checker, repair_outcome, root_mode, BoxState, EphemeralEvent, EphemeralPhase,
    EphemeralRoot, PersistentEvent, PersistentPhase, PreparedRoot,
};
use moraebox::libkrun::spawn::{
    helper_route, root_stage_error, HelperRoute, RootStartup, SpawnAction, SpawnEvent, SpawnPhase,
    SpawnRun,
};
use moraebox::libkrun::terminal::{
    kill_outcome, resize_route, KillEnd, NativeControl, PtyInput, ResizeRoute, ShutdownStep,
};
use moraebox::libkrun::{
    exit_marks_clean, helper_exit_is_clean, helper_spawn_error, resize_frame, settle_exit,
    signal_frame, signal_route, CopySpec, LibkrunBackend, LibkrunConfig, MachineRun,
    NetworkArgument, PathFacts, SignalRoute,
};
use moraebox::budget::{RunBudgetTimeout, RunStage, StageError};
use moraebox::net::{IpAddr, Ipv4Addr};
use moraebox::policy::config::{PolicyConfig, PolicyLimits};
use moraebox::policy::engine::PolicyEngine;
use moraebox::policy::{FrameDirection, PolicyMode};
use moraebox::session::finish::ExitParts;
use moraebox::time::Duration;

fn config() -> LibkrunConfig {
    LibkrunConfig::new(
        "/bin/helper".to_owned(),
        "/lib/libkrun.dylib".to_owned(),
        "/root".to_owned(),
        None,
    )
}

fn all_there() -> PathFacts {
    PathFacts {
        helper_exists: true,
        library_exists: true,
        native_error: None,
        root_disk_is_file: true,
        root_is_directory: true,
        debugfs_is_file: true,
        workspace_is_file: true,
    }
}

fn run() -> MachineRun {
    MachineRun {
        session_id: "session".to_owned(),
        has_box: false,
        cwd: None,
        tty: false,
        tty_rows: 24,
        tty_columns: 80,
        overlay: false,
        copy_in: vec![],
        copy_out: vec![],
        copy_limit_bytes: 1024,
        environment: vec![],
        argv: vec!["/bin/echo".to_owned(), "a b".to_owned()],
    }
}

fn text(result: Result<(), BackendError>) -> String {
    result.unwrap_err().message()
}

#[test]
fn rejects_missing_native_paths() {
    let config = LibkrunConfig::new(
        "missing-helper".to_owned(),
        "missing-lib".to_owned(),
        "missing-root".to_owned(),
        None,
    );
    let nothing = PathFacts {
        helper_exists: false,
        library_exists: false,
        native_error: None,
        root_disk_is_file: false,
        root_is_directory: false,
        debugfs_is_file: false,
        workspace_is_file: false,
    };
    assert!(config.validate(false, &nothing).is_err());
    assert_eq!(
        text(config.validate(false, &nothing)),
        "backend control failed: VMM helper does not exist: missing-helper"
    );
}

#[test]
fn gvproxy_socket_uri_requires_an_absolute_path() {
    assert!(vfkit_socket_uri("relative/gvproxy.sock").is_err());
    assert_eq!(
        vfkit_socket_uri("/private/tmp/gvproxy.sock").unwrap(),
        "unixgram:///private/tmp/gvproxy.sock"
    );
    let overlong = format!("/private/tmp/{}", "x".repeat(104));
    assert!(vfkit_socket_uri(&overlong).is_err());
}

#[test]
fn stderr_tail_never_exceeds_its_byte_limit() {
    let mut retained = b"old".to_vec();
    append_bounded_tail(&mut retained, b"0123456789", 6);
    assert_eq!(retained, b"456789");

    append_bounded_tail(&mut retained, b"ab", 6);
    assert_eq!(retained, b"6789ab");
}

#[test]
fn tails_of_pieces_are_tails_of_the_whole() {
    let mut pieces = Vec::new();
    for piece in [&b"abc"[..], b"", b"defgh", b"i"] {
        append_bounded_tail(&mut pieces, piece, 4);
    }
    assert_eq!(pieces, b"fghi");
    append_bounded_tail(&mut pieces, b"xyz", 0);
    assert!(pieces.is_empty());
}

#[test]
fn configurations_have_defaults_and_are_checked_in_order() {
    let base = config();
    assert_eq!((base.vcpus, base.memory_mib), (2, 512));
    assert_eq!(base.debugfs_path, "debugfs");
    assert_eq!(base.network_runtime_dir, ".moraebox/network");
    assert_eq!(base.control_runtime_dir, ".moraebox/control");
    assert_eq!(
        LibkrunConfig::firmware_candidate("/lib/libkrun.dylib"),
        Some("/lib/libkrunfw.dylib".to_owned())
    );
    assert_eq!(LibkrunConfig::firmware_candidate("/"), None);
    assert!(base.validate(false, &all_there()).is_ok());

    let mut small = config();
    small.vcpus = 0;
    small.memory_mib = 0;
    assert_eq!(
        text(small.validate(false, &all_there())),
        "invalid run specification: vCPU count must be non-zero"
    );
    small.vcpus = 1;
    assert_eq!(
        text(small.validate(false, &all_there())),
        "invalid run specification: memory must be non-zero"
    );

    let mut facts = all_there();
    facts.library_exists = false;
    assert_eq!(
        text(base.validate(false, &facts)),
        "backend control failed: libkrun does not exist: /lib/libkrun.dylib"
    );
    facts = all_there();
    facts.native_error = Some("unsigned".to_owned());
    assert_eq!(
        text(base.validate(false, &facts)),
        "backend control failed: unsigned"
    );
    facts = all_there();
    facts.root_is_directory = false;
    assert_eq!(
        text(base.validate(false, &facts)),
        "backend control failed: root filesystem does not exist: /root"
    );
    assert!(base.validate(true, &facts).is_ok());
    facts.debugfs_is_file = false;
    assert_eq!(
        text(base.validate(true, &facts)),
        "backend control failed: debugfs does not exist: debugfs"
    );
    let disk = config().with_root_disk("/disk".to_owned());
    facts = all_there();
    facts.root_disk_is_file = false;
    assert_eq!(
        text(disk.validate(false, &facts)),
        "backend control failed: root disk does not exist: /disk"
    );
    let mut workspace = config();
    workspace.workspace_disk = Some("/workspace.ext4".to_owned());
    facts = all_there();
    facts.workspace_is_file = false;
    assert_eq!(
        text(workspace.validate(false, &facts)),
        "backend control failed: workspace disk does not exist: /workspace.ext4"
    );
    let firmware = config().with_libkrunfw("/fw".to_owned());
    assert_eq!(firmware.libkrunfw_path, Some("/fw".to_owned()));
}

#[test]
fn network_needs_a_proxy() {
    let mut config = config();
    assert_eq!(
        config.network_proxy_path(true).unwrap_err().message(),
        "backend control failed: network access requires --gvproxy, MORAE_GVPROXY_PATH, or gvproxy on PATH"
    );
    config.gvproxy_path = Some("/bin/gvproxy".to_owned());
    assert_eq!(config.network_proxy_path(true).unwrap(), "/bin/gvproxy");
    assert_eq!(
        config.network_proxy_path(false).unwrap_err().message(),
        "backend control failed: gvproxy does not exist: /bin/gvproxy"
    );
}

#[test]
fn runs_are_refused_before_anything_is_prepared() {
    let backend = LibkrunBackend::new(config());
    assert_eq!(backend.name(), "libkrun");
    assert_eq!(backend.capabilities().isolation, IsolationLevel::MicroVm);
    assert!(backend.capabilities().network.is_supported());
    assert!(backend.check(&run(), None, &all_there()).is_ok());
    assert_eq!(
        text(backend.check(&run(), Some("empty argv".to_owned()), &all_there())),
        "invalid run specification: empty argv"
    );
    let mut boxed = run();
    boxed.has_box = true;
    assert_eq!(
        text(backend.check(&boxed, None, &all_there())),
        "backend control failed: run requested a BoxId but no Box store is configured"
    );
    let mut copying = run();
    copying.copy_out = vec![CopySpec {
        source: "/a".to_owned(),
        destination: "/b".to_owned(),
    }];
    assert_eq!(
        text(backend.check(&copying, None, &all_there())),
        "backend does not support copy-in/out with a directory root; use a managed or explicit root disk"
    );
    let mut overlay = run();
    overlay.overlay = true;
    assert_eq!(
        text(backend.check(&overlay, None, &all_there())),
        "backend does not support writable workspace overlay without an immutable workspace disk"
    );
    let mut workspace = config();
    workspace.workspace_disk = Some("/workspace.ext4".to_owned());
    let backend = LibkrunBackend::new(workspace);
    assert_eq!(
        text(backend.check(&run(), None, &all_there())),
        "backend does not support workspace mounting with a directory root; use a managed or explicit root disk"
    );
    let managed = backend.with_box_runtime().with_workspace_digest("sha256:w".to_owned());
    assert_eq!(managed.workspace_digest, Some("sha256:w".to_owned()));
    assert!(managed.check(&boxed, None, &all_there()).is_ok());
}

#[test]
fn helper_arguments_end_with_the_command_as_it_is() {
    let backend = LibkrunBackend::new(config());
    let arguments =
        backend.helper_arguments(&run(), &None, &NetworkArgument::Absent, 42, &None);
    assert_eq!(
        arguments,
        [
            "--libkrun",
            "/lib/libkrun.dylib",
            "--root",
            "/root",
            "--cpus",
            "2",
            "--memory-mib",
            "512",
            "--parent-pid",
            "42",
            "--",
            "/bin/echo",
            "a b",
        ]
    );
    let mut full_config = config();
    full_config.workspace_disk = Some("/w.ext4".to_owned());
    let mut full = run();
    full.cwd = Some("/work".to_owned());
    full.tty = true;
    full.overlay = true;
    full.copy_in = vec![CopySpec {
        source: "/src".to_owned(),
        destination: "/dst".to_owned(),
    }];
    full.copy_out = vec![CopySpec {
        source: "/out".to_owned(),
        destination: "/host".to_owned(),
    }];
    full.environment = vec![("A".to_owned(), "1=2".to_owned())];
    let backend = LibkrunBackend::new(full_config);
    let arguments = backend.helper_arguments(
        &full,
        &Some("/disk".to_owned()),
        &NetworkArgument::Socket("/net.sock".to_owned()),
        7,
        &Some("/run.fifo".to_owned()),
    );
    assert_eq!(
        arguments,
        [
            "--libkrun",
            "/lib/libkrun.dylib",
            "--root-disk",
            "/disk",
            "--debugfs",
            "debugfs",
            "--session-id",
            "session",
            "--cpus",
            "2",
            "--memory-mib",
            "512",
            "--parent-pid",
            "7",
            "--cwd",
            "/work",
            "--tty",
            "--tty-rows",
            "24",
            "--tty-cols",
            "80",
            "--workspace-disk",
            "/w.ext4",
            "--workspace-writable",
            "--network-socket",
            "/net.sock",
            "--copy-in-source",
            "/src",
            "--copy-in-destination",
            "/dst",
            "--copy-out-source",
            "/out",
            "--copy-out-destination",
            "/host",
            "--copy-limit-bytes",
            "1024",
            "--env",
            "A=1=2",
            "--control-fifo",
            "/run.fifo",
            "--",
            "/bin/echo",
            "a b",
        ]
    );
}

#[test]
fn host_control_pipe_frames_resize_and_signals() {
    assert_eq!(resize_frame(41, 99).unwrap(), [1, 0, 41, 0, 99]);
    assert_eq!(resize_frame(0x0102, 0x0304).unwrap(), [1, 1, 2, 3, 4]);
    assert_eq!(
        resize_frame(0, 80).unwrap_err().message(),
        "invalid run specification: terminal rows and columns must be non-zero"
    );
    assert_eq!(signal_frame(Signal::Interrupt).unwrap(), [2, 0, 0, 0, 0]);
    assert_eq!(signal_frame(Signal::Terminate).unwrap(), [3, 0, 0, 0, 0]);
    assert_eq!(signal_frame(Signal::Hangup).unwrap(), [4, 0, 0, 0, 0]);
    assert_eq!(
        signal_frame(Signal::Kill).unwrap_err().message(),
        "backend control failed: kill cannot be sent through the guest control pipe"
    );
}

#[test]
fn signals_and_sizes_find_their_way() {
    assert_eq!(
        signal_route(true, Signal::Terminate, 9),
        SignalRoute::ControlPipe
    );
    assert_eq!(
        signal_route(true, Signal::Kill, 9),
        SignalRoute::ProcessGroup {
            target: -9,
            number: 9
        }
    );
    assert_eq!(
        signal_route(false, Signal::Hangup, 9),
        SignalRoute::ProcessGroup {
            target: -9,
            number: 1
        }
    );
    assert_eq!(
        signal_route(false, Signal::Hangup, u32::MAX),
        SignalRoute::Impossible
    );
    assert_eq!(resize_route(NativeControl::Protocol).unwrap(), ResizeRoute::ControlPipe);
    assert_eq!(resize_route(NativeControl::Pty).unwrap(), ResizeRoute::Terminal);
    assert_eq!(
        resize_route(NativeControl::Absent).unwrap_err().message(),
        "backend does not support terminal resize"
    );
    assert!(kill_outcome(KillEnd::Sent).is_ok());
    assert!(kill_outcome(KillEnd::NoSuchProcess).is_ok());
    assert!(kill_outcome(KillEnd::Failed("denied".to_owned())).is_err());
}

#[test]
fn terminals_are_closed_by_two_characters() {
    let mut input = PtyInput::new(4);
    assert!(input.is_open());
    assert_eq!(input.shut_down(), ShutdownStep::Write(2));
    assert!(!input.is_open());
    assert_eq!(input.wrote(1), ShutdownStep::Write(1));
    assert_eq!(input.wrote(0), ShutdownStep::WriteZero);
    assert_eq!(input.wrote(1), ShutdownStep::Close);
    assert_eq!(input.shut_down(), ShutdownStep::Close);
}

#[test]
fn only_clean_exits_leave_a_box_clean() {
    let exit = |code: Option<i32>, signal: Option<i32>| ExitParts { code, signal };
    assert!(helper_exit_is_clean(exit(Some(0), None)));
    assert!(helper_exit_is_clean(exit(Some(7), None)));
    assert!(!helper_exit_is_clean(exit(Some(125), None)));
    assert!(!helper_exit_is_clean(exit(Some(137), None)));
    assert!(!helper_exit_is_clean(exit(None, Some(9))));
    assert!(!helper_exit_is_clean(exit(None, None)));
    assert!(exit_marks_clean(&Ok(exit(Some(0), None)), true));
    assert!(!exit_marks_clean(&Ok(exit(Some(0), None)), false));
    assert!(!exit_marks_clean(&Err("lost".to_owned()), true));
}

#[test]
fn exits_are_settled_by_the_worst_failure() {
    let exit = ExitParts {
        code: Some(0),
        signal: None,
    };
    assert_eq!(settle_exit(Ok(exit), Ok(()), Ok(())).unwrap(), exit);
    assert_eq!(
        settle_exit(Ok(exit), Err("root".to_owned()), Err("network".to_owned())).unwrap_err(),
        "root"
    );
    assert_eq!(
        settle_exit(Ok(exit), Ok(()), Err("network".to_owned())).unwrap_err(),
        "network"
    );
    assert_eq!(
        settle_exit(Err("exit".to_owned()), Ok(()), Err("network".to_owned())).unwrap_err(),
        "exit"
    );
}

#[test]
fn roots_come_from_where_they_are_configured() {
    assert_eq!(root_mode(true, true, false), RootMode::Persistent);
    assert_eq!(root_mode(true, false, true), RootMode::Ephemeral);
    assert_eq!(root_mode(false, false, true), RootMode::StaticDisk);
    assert_eq!(root_mode(false, true, false), RootMode::Directory);
    assert_eq!(PreparedRoot::Directory.disk_path(), None);
    assert!(!PreparedRoot::StaticDisk("/d".to_owned()).has_lease());
    let managed = PreparedRoot::Managed("/m".to_owned());
    assert_eq!(managed.disk_path(), Some("/m"));
    assert!(managed.has_lease());
}

#[test]
fn dirty_boxes_are_repaired_before_use() {
    let dirty = PersistentPhase::Locking.step(PersistentEvent::Locked(BoxState::Dirty));
    assert_eq!(dirty, PersistentPhase::Repairing);
    assert_eq!(dirty.step(PersistentEvent::Opened), PersistentPhase::Failed);
    let repaired = dirty.step(PersistentEvent::Repaired);
    assert_eq!(repaired, PersistentPhase::Opening);
    assert_eq!(repaired.step(PersistentEvent::Opened), PersistentPhase::Ready);
    assert_eq!(
        PersistentPhase::Locking.step(PersistentEvent::Locked(BoxState::Clean)),
        PersistentPhase::Opening
    );
    assert!(repair_outcome("box-1", Some(0), b"").is_ok());
    assert!(repair_outcome("box-1", Some(1), b"").is_ok());
    assert_eq!(
        repair_outcome("box-1", Some(4), b" left uncorrected\n")
            .unwrap_err()
            .message(),
        "backend control failed: e2fsck could not repair Box box-1 (status Some(4)): left uncorrected"
    );
    assert_eq!(
        repair_outcome("box-1", None, b"").unwrap_err().message(),
        "backend control failed: e2fsck could not repair Box box-1 (status None): "
    );
    assert_eq!(
        missing_checker("box-1", "/sbin/e2fsck").message(),
        "backend control failed: dirty Box box-1 requires e2fsck, but it was not found at /sbin/e2fsck"
    );
}

#[test]
fn ephemeral_roots_take_one_disk() {
    assert_eq!(
        EphemeralRoot::begin(false, true).unwrap_err().message(),
        "backend control failed: ephemeral native run requires an image-backed Box root source"
    );
    let mut pooled = EphemeralRoot::begin(true, true).unwrap();
    pooled.step(EphemeralEvent::BaseFound);
    assert_eq!(pooled.phase, EphemeralPhase::Leasing);
    pooled.step(EphemeralEvent::Leased);
    assert_eq!(pooled.phase, EphemeralPhase::Ready);
    assert_eq!(pooled.pool_hit, Some(true));
    assert!(!pooled.cloned);
    assert!(pooled.replenishes());

    let mut missed = EphemeralRoot::begin(true, true).unwrap();
    missed.step(EphemeralEvent::BaseMissing);
    missed.step(EphemeralEvent::BasePrepared);
    missed.step(EphemeralEvent::PoolEmpty);
    assert_eq!(missed.phase, EphemeralPhase::Cloning);
    missed.step(EphemeralEvent::Cloned);
    assert_eq!(missed.pool_hit, Some(false));
    assert!(missed.cloned && missed.base_prepared && missed.replenishes());

    let mut plain = EphemeralRoot::begin(true, false).unwrap();
    plain.step(EphemeralEvent::BaseFound);
    assert_eq!(plain.phase, EphemeralPhase::Cloning);
    plain.step(EphemeralEvent::Failed);
    assert_eq!(plain.phase, EphemeralPhase::Failed);
    assert!(!plain.replenishes());
}

fn root_startup() -> RootStartup {
    RootStartup {
        root_mode: RootMode::Ephemeral,
        prepared_pool_hit: Some(true),
        prepared_lease_micros: Some(3),
        cache_lookup_micros: Some(2),
        box_lock_micros: None,
        base_prepare_micros: None,
        disk_clone_micros: None,
        repair_micros: None,
    }
}

#[test]
fn machines_get_root_then_network_then_helper() {
    let mut start = SpawnRun::begin(true, Duration::zero());
    let action = start.step(
        SpawnEvent::RootReady(root_startup()),
        Duration::from_millis(5),
    );
    assert!(matches!(action, SpawnAction::StartNetwork));
    let action = start.step(SpawnEvent::NetworkReady, Duration::from_millis(7));
    assert!(matches!(action, SpawnAction::SpawnHelper));
    let action = start.step(SpawnEvent::HelperReady, Duration::from_millis(8));
    match action {
        SpawnAction::Done(startup) => {
            assert_eq!(startup.root_mode, Some(RootMode::Ephemeral));
            assert_eq!(startup.prepared_pool_hit, Some(true));
            assert_eq!(startup.root_prepare_micros, Some(5000));
            assert_eq!(startup.network_setup_micros, Some(2000));
            assert_eq!(startup.helper_spawn_micros, Some(1000));
        }
        other => panic!("unexpected action {other:?}"),
    }
    assert_eq!(start.phase, SpawnPhase::Over);
}

#[test]
fn failed_roots_start_no_network() {
    let mut start = SpawnRun::begin(true, Duration::zero());
    let action = start.step(
        SpawnEvent::RootFailed(BackendError::Control("no disk".to_owned())),
        Duration::from_millis(1),
    );
    assert!(matches!(action, SpawnAction::Fail(BackendError::Control(reason)) if reason == "no disk"));
    assert_eq!(start.phase, SpawnPhase::Over);
}

#[test]
fn failed_helpers_give_their_network_back() {
    let mut start = SpawnRun::begin(true, Duration::zero());
    start.step(SpawnEvent::RootReady(root_startup()), Duration::zero());
    start.step(SpawnEvent::NetworkReady, Duration::zero());
    let action = start.step(
        SpawnEvent::HelperFailed(BackendError::MissingProcessId),
        Duration::zero(),
    );
    assert!(matches!(action, SpawnAction::ReapNetwork));
    let action = start.step(
        SpawnEvent::NetworkReaped(Some("still alive".to_owned())),
        Duration::zero(),
    );
    match action {
        SpawnAction::Fail(error) => assert_eq!(
            error.message(),
            "backend control failed: backend process has no process id; failed to reap gvproxy after helper spawn failure: still alive"
        ),
        other => panic!("unexpected action {other:?}"),
    }
    assert_eq!(
        helper_spawn_error(BackendError::MissingProcessId, None).message(),
        "backend process has no process id"
    );
    let mut alone = SpawnRun::begin(false, Duration::zero());
    alone.step(SpawnEvent::RootReady(root_startup()), Duration::zero());
    let action = alone.step(
        SpawnEvent::HelperFailed(BackendError::MissingProcessId),
        Duration::zero(),
    );
    assert!(matches!(action, SpawnAction::Fail(BackendError::MissingProcessId)));
}

#[test]
fn root_stages_fail_with_their_own_error() {
    let own = root_stage_error(StageError::Failed {
        stage: RunStage::RootPrepare,
        source: BackendError::Control("locked".to_owned()),
    });
    assert_eq!(own.message(), "backend control failed: locked");
    let late = root_stage_error(StageError::Timeout(RunBudgetTimeout {
        stage: RunStage::BoxRepair,
        limit: Duration::from_millis(1500),
    }));
    assert_eq!(late.message(), "run timed out after 1.5s during box_repair");
}

#[test]
fn helpers_are_reached_by_their_root() {
    assert_eq!(helper_route(true, false), HelperRoute::Protocol(OutputChannel::Stdout));
    assert_eq!(helper_route(true, true), HelperRoute::Protocol(OutputChannel::Tty));
    assert_eq!(helper_route(false, true), HelperRoute::Pty);
    assert_eq!(helper_route(false, false), HelperRoute::Piped);
}

#[test]
fn proxies_are_polled_until_they_answer() {
    let poll = |exited: Option<&str>, unreachable: Option<&str>, millis: u64| {
        ProxyPoll {
            exited: exited.map(str::to_owned),
            unreachable: unreachable.map(str::to_owned),
            elapsed: Duration::from_millis(millis),
        }
        .verdict()
    };
    assert_eq!(poll(Some("exit"), None, 0), ProxyVerdict::Exited);
    assert_eq!(poll(None, None, 9_000), ProxyVerdict::Ready);
    assert_eq!(poll(None, Some("refused"), 4_999), ProxyVerdict::PollAgain);
    assert_eq!(poll(None, Some("refused"), 5_000), ProxyVerdict::TooSlow);
}

#[test]
fn networks_are_ready_after_relay_and_ports() {
    let mut start = NetworkStart::new(true, true);
    start.step(StartEvent::Polled(ProxyVerdict::PollAgain));
    start.step(StartEvent::Polled(ProxyVerdict::Ready));
    assert_eq!(start.phase, StartPhase::StartingRelay);
    start.step(StartEvent::RelayStarted);
    assert_eq!(start.phase, StartPhase::Publishing);
    start.step(StartEvent::Published);
    assert_eq!(start.phase, StartPhase::Ready);
    let mut failed = NetworkStart::new(true, false);
    failed.step(StartEvent::Polled(ProxyVerdict::Ready));
    failed.step(StartEvent::RelayFailed);
    assert_eq!(failed.phase, StartPhase::Failed);
}

#[test]
fn failed_networks_say_why() {
    assert_eq!(
        start_error(
            StartFailure::ProxyExited {
                status: "exit status: 2".to_owned(),
                stderr: b" bad flag\n".to_vec(),
            },
            None,
        )
        .message(),
        "backend control failed: gvproxy exited before its vfkit endpoint was ready: exit status: 2; stderr (last 10 bytes): bad flag"
    );
    assert_eq!(
        start_error(
            StartFailure::ProxyTooSlow {
                error: "refused".to_owned(),
                stderr: vec![],
            },
            Some("stuck".to_owned()),
        )
        .message(),
        "backend control failed: gvproxy vfkit endpoint was not connectable within 5 seconds; last socket error: refused; cleanup failed: stuck"
    );
    assert_eq!(
        start_error(StartFailure::Relay("bind".to_owned()), None).message(),
        "backend control failed: failed to start network policy relay: bind"
    );
    assert_eq!(
        start_error(StartFailure::Publish("in use".to_owned()), None).message(),
        "backend control failed: failed to publish preview port: in use"
    );
    assert_eq!(stderr_diagnostics(b""), "");
}

#[test]
fn proxies_are_told_their_sockets() {
    assert_eq!(
        gvproxy_arguments("/a.sock", Some("/s.sock")).unwrap(),
        ["--listen-vfkit", "unixgram:///a.sock", "--services", "unix:///s.sock"]
    );
    assert_eq!(
        gvproxy_arguments("/a.sock", None).unwrap(),
        ["--listen-vfkit", "unixgram:///a.sock"]
    );
    assert!(gvproxy_arguments("/a.sock", Some("s.sock")).is_err());
    assert!(unix_socket_uri("relative").is_err());
    assert_eq!(proxy_socket_in("/run/net").unwrap(), "/run/net/gvproxy.sock");
    assert!(proxy_socket_in("net").is_err());
    assert_eq!(
        proxy_socket_in(&format!("/{}", "d".repeat(100))).unwrap_err().message(),
        "backend control failed: gvproxy socket path exceeds the Unix limit: 114 bytes"
    );
}

#[test]
fn networks_are_handed_to_the_helper() {
    assert!(matches!(
        helper_network_argument(Some(5), Some("/p".to_owned())),
        NetworkArgument::Descriptor(5)
    ));
    assert!(matches!(
        helper_network_argument(None, Some("/p".to_owned())),
        NetworkArgument::Socket(path) if path == "/p"
    ));
    assert!(matches!(
        helper_network_argument(None, None),
        NetworkArgument::Absent
    ));
}

#[test]
fn relay_cleanup_tolerates_a_missing_endpoint() {
    assert_eq!(cleanup_network_proxy(RelayEnd::EndpointGone, None, None), None);
    assert_eq!(
        cleanup_network_proxy(
            RelayEnd::Failed("relay".to_owned()),
            Some("child".to_owned()),
            None
        ),
        Some("relay".to_owned())
    );
    assert_eq!(
        cleanup_network_proxy(RelayEnd::Done, Some("child".to_owned()), Some("state".to_owned())),
        Some("child".to_owned())
    );
    assert_eq!(
        cleanup_network_proxy(RelayEnd::EndpointGone, None, Some("state".to_owned())),
        Some("state".to_owned())
    );
}

#[test]
fn relays_forward_nothing_that_is_not_allowed() {
    let policy = PolicyConfig::new(
        PolicyMode::Disabled,
        vec![],
        vec![],
        vec![],
        vec![],
        vec![],
        PolicyLimits::default(),
    )
    .unwrap();
    let mut engine = PolicyEngine::new(policy);
    assert!(!relay_frame(
        &mut engine,
        FrameDirection::GuestToNetwork,
        &[0; 60],
        Duration::zero()
    ));
}

fn ipv4_checksum(bytes: &[u8]) -> u16 {
    let mut sum = bytes.chunks(2).fold(0_u32, |sum, chunk| {
        let word = if chunk.len() == 2 {
            u16::from_be_bytes([chunk[0], chunk[1]])
        } else {
            u16::from(chunk[0]) << 8
        };
        sum + u32::from(word)
    });
    while sum >> 16 != 0 {
        sum = (sum & 0xffff) + (sum >> 16);
    }
    !u16::try_from(sum).expect("folded IPv4 checksum fits in 16 bits")
}

fn udp_frame(
    source: Ipv4Addr,
    destination: Ipv4Addr,
    source_port: u16,
    destination_port: u16,
) -> Vec<u8> {
    let mut udp = Vec::new();
    udp.extend_from_slice(&source_port.to_be_bytes());
    udp.extend_from_slice(&destination_port.to_be_bytes());
    udp.extend_from_slice(&12_u16.to_be_bytes());
    udp.extend_from_slice(&[0, 0]);
    udp.extend_from_slice(b"data");
    let mut ip = vec![0_u8; 20];
    ip[0] = 0x45;
    ip[2..4].copy_from_slice(&u16::try_from(20 + udp.len()).unwrap().to_be_bytes());
    ip[8] = 64;
    ip[9] = 17;
    ip[12..16].copy_from_slice(&source.octets());
    ip[16..20].copy_from_slice(&destination.octets());
    let checksum = ipv4_checksum(&ip);
    ip[10..12].copy_from_slice(&checksum.to_be_bytes());
    ip.extend_from_slice(&udp);
    let mut ethernet = vec![0_u8; 14];
    ethernet[12..14].copy_from_slice(&0x0800_u16.to_be_bytes());
    ethernet.extend_from_slice(&ip);
    ethernet
}

#[test]
fn policy_relay_forwards_only_allowed_and_correlated_frames() {
    let config = PolicyConfig::new(
        PolicyMode::Unrestricted,
        vec![],
        vec![],
        vec![],
        vec![],
        vec![],
        PolicyLimits::default(),
    )
    .unwrap();
    let mut engine = PolicyEngine::new(config);
    let now = Duration::from_secs(1);
    let outbound = udp_frame(
        Ipv4Addr::new(192, 168, 127, 2),
        Ipv4Addr::new(203, 0, 113, 7),
        40_000,
        1234,
    );
    assert!(relay_frame(
        &mut engine,
        FrameDirection::GuestToNetwork,
        &outbound,
        now
    ));
    let reverse = udp_frame(
        Ipv4Addr::new(203, 0, 113, 7),
        Ipv4Addr::new(192, 168, 127, 2),
        1234,
        40_000,
    );
    assert!(relay_frame(
        &mut engine,
        FrameDirection::NetworkToGuest,
        &reverse,
        now
    ));
    let unsolicited = udp_frame(
        Ipv4Addr::new(203, 0, 113, 8),
        Ipv4Addr::new(192, 168, 127, 2),
        1234,
        40_001,
    );
    assert!(!relay_frame(
        &mut engine,
        FrameDirection::NetworkToGuest,
        &unsolicited,
        now
    ));
}

#[test]
fn policy_relay_cleanup_tolerates_an_unlinked_upstream_endpoint() {
    assert_eq!(
        cleanup_network_proxy(RelayEnd::EndpointGone, None, None),
        None
    );
}

#[test]
fn runs_bring_their_own_policy() {
    let rules = |cidr: &str, domain: &str| {
        Some(NetworkPolicy {
            allow_cidrs: vec![cidr.to_owned()],
            allow_domains: vec![domain.to_owned()],
        })
    };
    assert!(
        policy_config_for_spec(NetworkMode::Unrestricted, None, vec![])
            .unwrap()
            .is_none()
    );
    let config = policy_config_for_spec(
        NetworkMode::Allowlist,
        rules("203.0.113.0/24", "*.example.com"),
        vec![3000],
    )
    .unwrap()
    .unwrap();
    assert_eq!(config.mode(), PolicyMode::Allowlist);
    assert!(config.cidr_matches(IpAddr::V4(Ipv4Addr::new(203, 0, 113, 9))));
    assert!(config.domain_matches(b"www.example.com"));
    assert!(config.is_published_port(3000));
    assert!(config.is_dns_server(&IpAddr::V4(Ipv4Addr::new(192, 168, 127, 1))));
    let refused = |made: Result<Option<PolicyConfig>, BackendError>| match made {
        Err(error) => error.message(),
        Ok(_) => panic!("the policy is refused"),
    };
    assert_eq!(
        refused(policy_config_for_spec(NetworkMode::Allowlist, None, vec![])),
        "backend control failed: allowlist mode requires a typed network policy"
    );
    assert!(refused(policy_config_for_spec(
        NetworkMode::Allowlist,
        rules("203.0.113.0/33", "example.com"),
        vec![]
    ))
    .starts_with("backend control failed: invalid network CIDR 203.0.113.0/33: "));
    assert!(refused(policy_config_for_spec(
        NetworkMode::Allowlist,
        rules("203.0.113.0/24", "exa mple.com"),
        vec![]
    ))
    .starts_with("backend control failed: invalid network domain pattern exa mple.com: "));
}
