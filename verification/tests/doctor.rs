use moraebox::doctor::discovery::{
    library_parent_path, with_file_name, DiskToolPaths, HostFacts, NativeRuntimePaths,
};
use moraebox::doctor::probe::{
    architecture_matches, command_output, homebrew_version, library_has_symbol,
    nearest_existing_directory, network_needs_socket, probe_cache_volume, probe_cow_clone,
    probe_libkrun, probe_libkrunfw, probe_library_path, probe_native_binary, probe_network,
    probe_socket_uri, probe_symbols, probe_tool_path, required_libkrun_symbols,
    wait_for_network_socket, with_stderr_diagnostics, BinaryFacts, CacheVolumeProbe, ChildState,
    CloneAttempt, LibraryFacts, LibraryProbe, NativeBinaryProbe, NetworkProbe, SocketPoll,
    ToolProbe, VolumeFacts, MIN_RECOMMENDED_CACHE_FREE_BYTES,
};
use moraebox::doctor::{
    build_checks, format_bytes, probe_state, status_for, validate_native_runtime_probes,
    DoctorCheckStatus, DoctorReport, HostProbes, EXPECTED_LIBKRUNFW_VERSION,
    EXPECTED_LIBKRUN_VERSION,
};
use moraebox::time::Duration;

fn nothing() -> HostFacts {
    HostFacts {
        environment: vec![],
        search_path: vec![],
        executable: None,
        files: vec![],
    }
}

fn some(text: &str) -> Option<String> {
    Some(text.to_owned())
}

fn good_helper() -> NativeBinaryProbe {
    NativeBinaryProbe {
        path: some("/native/morae-vmm-helper"),
        regular_file: true,
        executable: Some(true),
        architecture: some("arm64"),
        architecture_matches: Some(true),
        code_signature_valid: Some(true),
    }
}

fn good_library(name: &str, version: &str) -> LibraryProbe {
    LibraryProbe {
        found: true,
        path: Some(format!("/native/{name}.dylib")),
        required_symbols_present: Some(true),
        missing_symbols: Vec::new(),
        version: some(version),
        version_matches: Some(true),
        architecture: some("arm64"),
        architecture_matches: Some(true),
        code_signature_valid: Some(true),
    }
}

fn good_tool(path: &str) -> ToolProbe {
    probe_tool_path(some(path), true, some("1.0"))
}

fn good_probes() -> HostProbes {
    HostProbes {
        os: "macos".to_owned(),
        architecture: "aarch64".to_owned(),
        os_version: some("15.0"),
        hypervisor_framework: true,
        hypervisor_entitlement: true,
        helper: good_helper(),
        libkrun: good_library("libkrun", EXPECTED_LIBKRUN_VERSION),
        libkrunfw: good_library("libkrunfw", EXPECTED_LIBKRUNFW_VERSION),
        krunvm: probe_tool_path(None, false, None),
        gvproxy: good_tool("/usr/local/bin/gvproxy"),
        mke2fs: good_tool("/usr/sbin/mke2fs"),
        e2fsck: good_tool("/usr/sbin/e2fsck"),
        debugfs: good_tool("/usr/sbin/debugfs"),
        cache_volume: probe_cache_volume(
            "/cache".to_owned(),
            Some(VolumeFacts {
                path: "/cache".to_owned(),
                available_bytes: Some(64 * 1024 * 1024 * 1024),
                total_bytes: Some(128 * 1024 * 1024 * 1024),
                clone: CloneAttempt::Ran {
                    success: true,
                    copied: true,
                    stderr: vec![],
                },
            }),
        ),
        network: NetworkProbe {
            helper_executable: true,
            helper_architecture: some("arm64"),
            helper_architecture_matches: Some(true),
            socket_created: Some(true),
            error: None,
        },
        libkrun_network_api: Some(true),
    }
}

fn missing_library(path: Option<String>) -> LibraryFacts {
    let _ = path;
    LibraryFacts {
        is_file: false,
        listing: None,
        canonical_path: None,
        architecture: None,
        code_signature_valid: None,
    }
}

#[test]
fn doctor_failure_appends_bounded_stderr_diagnostics() {
    let (ready, error) = with_stderr_diagnostics(
        (Some(false), Some("probe failed".into())),
        b"diagnostic-tail",
    );

    assert_eq!(ready, Some(false));
    let error = error.unwrap();
    assert!(error.contains("probe failed"));
    assert!(error.contains("diagnostic-tail"));
    assert_eq!(error, "probe failed; stderr (last 15 bytes): diagnostic-tail");
}

#[test]
fn doctor_never_claims_ready_without_libraries() {
    let mut probes = good_probes();
    probes.libkrun = probe_libkrun(None, "aarch64", missing_library(None));
    let report = DoctorReport::collect(probes);
    if !report.libkrun.found || !report.libkrunfw.found {
        assert!(!report.native_backend_ready);
    }
    assert!(!report.libkrun.found);
    assert!(!report.native_network_ready);

    let mut probes = good_probes();
    probes.libkrunfw = probe_libkrunfw(None, "aarch64", missing_library(None));
    let report = DoctorReport::collect(probes);
    assert!(!report.libkrunfw.found);
    assert!(!report.native_backend_ready);
}

#[test]
fn missing_library_probe_is_explicit() {
    let path = "/definitely/not/a/library".to_owned();
    let probe = probe_library_path(
        Some(path.clone()),
        &required_libkrun_symbols(),
        "libkrun",
        EXPECTED_LIBKRUN_VERSION,
        "aarch64",
        missing_library(Some(path.clone())),
    );
    assert!(!probe.found);
    assert_eq!(probe.path, Some(path));
    assert_eq!(probe.required_symbols_present, None);
}

#[test]
fn native_preflight_requires_pinned_released_probes() {
    let helper = good_helper();
    let libkrun = good_library("libkrun", EXPECTED_LIBKRUN_VERSION);
    let libkrunfw = good_library("libkrunfw", EXPECTED_LIBKRUNFW_VERSION);

    assert!(
        validate_native_runtime_probes(
            true,
            &helper,
            true,
            &libkrun,
            &libkrunfw,
            true,
            Some(true),
        )
        .is_ok()
    );

    let mut unverifiable = libkrun;
    unverifiable.version = None;
    unverifiable.version_matches = None;
    let error = validate_native_runtime_probes(
        true,
        &helper,
        true,
        &unverifiable,
        &libkrunfw,
        true,
        Some(false),
    )
    .unwrap_err()
    .message();
    assert!(error.contains("libkrun version is unverifiable"));
    assert!(error.contains("krun_add_net_unixgram"));
    assert!(error.contains("morae doctor --json"));
}

#[test]
fn doctor_uses_resolved_tool_overrides_without_fallback() {
    let missing_helper = "/configured/missing-helper".to_owned();
    let missing_library_path = "/configured/missing-libkrun".to_owned();
    let missing_proxy = "/configured/missing-gvproxy".to_owned();
    let missing_mke2fs = "/configured/missing-mke2fs".to_owned();
    let missing_e2fsck = "/configured/missing-e2fsck".to_owned();
    let missing_debugfs = "/configured/missing-debugfs".to_owned();
    let tools = DiskToolPaths::discover_with_debugfs(
        Some(missing_mke2fs.clone()),
        Some(missing_e2fsck.clone()),
        Some(missing_debugfs.clone()),
        &nothing(),
    );
    let mut probes = good_probes();
    probes.helper = probe_native_binary(
        Some(missing_helper.clone()),
        "aarch64",
        true,
        BinaryFacts {
            is_file: false,
            is_executable: false,
            architecture: None,
            code_signature_valid: None,
        },
    );
    probes.libkrun = probe_libkrun(
        Some(missing_library_path.clone()),
        "aarch64",
        missing_library(None),
    );
    probes.gvproxy = probe_tool_path(Some(missing_proxy.clone()), false, None);
    probes.mke2fs = probe_tool_path(tools.mke2fs, false, None);
    probes.e2fsck = probe_tool_path(tools.e2fsck, false, None);
    probes.debugfs = probe_tool_path(tools.debugfs, false, None);
    let report = DoctorReport::collect(probes);

    assert_eq!(report.helper_path, Some(missing_helper));
    assert_eq!(report.libkrun.path, Some(missing_library_path));
    assert_eq!(report.gvproxy.path, Some(missing_proxy));
    assert_eq!(report.mke2fs.path, Some(missing_mke2fs));
    assert_eq!(report.e2fsck.path, Some(missing_e2fsck));
    assert_eq!(report.debugfs.path, Some(missing_debugfs));
    assert!(!report.native_backend_ready);
}

#[test]
fn explicit_native_paths_take_precedence() {
    let paths = NativeRuntimePaths::discover_with_gvproxy(
        some("/configured/helper"),
        some("/configured/lib/libkrun.dylib"),
        some("/configured/search"),
        some("/configured/gvproxy"),
        &nothing(),
    );
    assert_eq!(paths.helper, some("/configured/helper"));
    assert_eq!(paths.libkrun, some("/configured/lib/libkrun.dylib"));
    assert_eq!(paths.library_search_path, some("/configured/search"));
    assert_eq!(paths.gvproxy, some("/configured/gvproxy"));
}

#[test]
fn explicit_disk_tool_paths_take_precedence_and_commands_have_fallbacks() {
    let paths = DiskToolPaths::discover_with_debugfs(
        some("/configured/mke2fs"),
        some("/configured/e2fsck"),
        some("/configured/debugfs"),
        &nothing(),
    );
    assert_eq!(paths.mke2fs_command(), "/configured/mke2fs");
    assert_eq!(paths.e2fsck_command(), "/configured/e2fsck");
    assert_eq!(paths.debugfs_command(), "/configured/debugfs");

    let unavailable = DiskToolPaths {
        mke2fs: None,
        e2fsck: None,
        debugfs: None,
    };
    assert_eq!(unavailable.mke2fs_command(), "mke2fs");
    assert_eq!(unavailable.e2fsck_command(), "e2fsck");
    assert_eq!(unavailable.debugfs_command(), "debugfs");
}

#[test]
fn library_search_path_uses_unique_library_parents() {
    let joined = library_parent_path(
        &some("/opt/native/lib/libkrun.dylib"),
        &some("/opt/native/lib/libkrunfw.dylib"),
    );
    assert_eq!(joined, some("/opt/native/lib"));
}

#[test]
fn homebrew_version_comes_from_the_canonical_cellar_path() {
    let library = some("/tmp/state/Cellar/libkrun/1.19.4/lib/libkrun.dylib");

    assert_eq!(
        homebrew_version(&library, "libkrun").as_deref(),
        Some("1.19.4")
    );
    assert_eq!(homebrew_version(&library, "libkrunfw"), None);
    assert_eq!(homebrew_version(&None, "libkrun"), None);
    assert_eq!(homebrew_version(&some("/Cellar/libkrun"), "libkrun"), None);
}

#[test]
fn every_non_pass_check_has_remediation() {
    let missing_tool = || ToolProbe {
        found: false,
        path: None,
        version: None,
    };
    let checks = build_checks(&HostProbes {
        cache_volume: CacheVolumeProbe::default(),
        network: NetworkProbe::default(),
        helper: NativeBinaryProbe::default(),
        hypervisor_entitlement: false,
        libkrun: LibraryProbe::default(),
        libkrunfw: LibraryProbe::default(),
        libkrun_network_api: None,
        mke2fs: missing_tool(),
        e2fsck: missing_tool(),
        debugfs: missing_tool(),
        ..good_probes()
    });

    assert!(checks.iter().all(|check| {
        check.status == DoctorCheckStatus::Pass || check.remediation.is_some()
    }));
    assert_eq!(checks.len(), 9);
}

#[test]
fn passing_checks_have_neither_advice_nor_warning() {
    let report = DoctorReport::collect(good_probes());
    assert!(report.native_backend_ready);
    assert!(report.native_network_ready);
    assert!(report.host_supported);
    assert!(report.checks.iter().all(|check| check.remediation.is_none()));
    assert!(report.warnings.is_empty());
    let ids: Vec<&str> = report.checks.iter().map(|check| check.id.as_str()).collect();
    assert_eq!(
        ids,
        [
            "cache_reflink",
            "cache_free_space",
            "network_helper",
            "network_socket",
            "helper_signing",
            "libkrun_abi",
            "libkrunfw_abi",
            "network_abi",
            "disk_tools",
        ]
    );
    assert_eq!(
        report.checks[1].summary,
        "cache volume has 64.0 GiB free; 8.0 GiB is recommended"
    );
    assert_eq!(
        report.checks[5].summary,
        "found=true, version=1.19.4 (expected 1.19.4), architecture=arm64, symbols=ready, signature=ready"
    );
}

#[test]
fn failing_checks_become_warnings() {
    let mut probes = good_probes();
    probes.libkrun_network_api = None;
    probes.debugfs = probe_tool_path(None, true, some("1.0"));
    let report = DoctorReport::collect(probes);
    assert!(!report.native_backend_ready);
    assert!(!report.native_network_ready);
    assert_eq!(
        report.warnings,
        [
            "network_abi: krun_add_net_unixgram availability is unknown; remediation: Install the pinned released libkrun build that exports krun_add_net_unixgram.",
            "disk_tools: mke2fs found=true, e2fsck found=true, debugfs found=false; remediation: Install e2fsprogs or pass --mke2fs, --e2fsck, and --debugfs explicitly.",
        ]
    );
    assert_eq!(report.checks[7].status, DoctorCheckStatus::Warn);
    assert_eq!(report.checks[8].status, DoctorCheckStatus::Fail);
}

#[test]
fn other_hosts_are_not_supported() {
    let mut probes = good_probes();
    probes.os = "linux".to_owned();
    let report = DoctorReport::collect(probes);
    assert!(!report.host_supported);
    assert!(!report.native_backend_ready);
}

#[test]
fn preflight_lists_every_issue_in_order() {
    let mut helper = good_helper();
    helper.executable = Some(false);
    helper.code_signature_valid = None;
    let mut libkrun = good_library("libkrun", "1.18.0");
    libkrun.required_symbols_present = Some(false);
    libkrun.missing_symbols = vec!["krun_add_vsock".to_owned(), "krun_set_exec".to_owned()];
    libkrun.version_matches = Some(false);
    let error = validate_native_runtime_probes(
        false,
        &helper,
        false,
        &libkrun,
        &LibraryProbe::default(),
        false,
        None,
    )
    .unwrap_err();
    assert_eq!(
        error.details,
        "native libkrun execution requires Apple Silicon macOS; \
         morae-vmm-helper is not executable; \
         morae-vmm-helper code signature is invalid or unverifiable; \
         morae-vmm-helper lacks the Hypervisor entitlement; \
         libkrun does not expose the required released ABI: missing krun_add_vsock, krun_set_exec; \
         libkrun version is 1.18.0 but the pinned released version is 1.19.4; \
         libkrunfw is not a regular file or its path was not resolved; \
         run `morae doctor --json` and install or sign the pinned native dependencies"
    );
    assert!(error.message().starts_with("native runtime preflight failed: native libkrun"));
}

#[test]
fn environment_precedes_installed_places() {
    let host = HostFacts {
        environment: vec![
            ("MORAE_LIBKRUN_PATH".to_owned(), "/env/libkrun.dylib".to_owned()),
            ("MORAE_E2FSCK".to_owned(), "/env/e2fsck".to_owned()),
        ],
        search_path: vec!["/first".to_owned(), "/second/".to_owned()],
        executable: some("/opt/bin/morae"),
        files: vec![
            "/opt/homebrew/lib/libkrun.dylib".to_owned(),
            "/env/libkrunfw.dylib".to_owned(),
            "/opt/bin/morae-vmm-helper".to_owned(),
            "/second/gvproxy".to_owned(),
            "/usr/sbin/mke2fs".to_owned(),
        ],
    };
    let paths = NativeRuntimePaths::discover(None, None, None, &host);
    assert_eq!(paths.helper, some("/opt/bin/morae-vmm-helper"));
    assert_eq!(paths.libkrun, some("/env/libkrun.dylib"));
    assert_eq!(paths.libkrunfw, some("/env/libkrunfw.dylib"));
    assert_eq!(paths.gvproxy, some("/second/gvproxy"));
    assert_eq!(paths.library_search_path, some("/env"));
    let tools = DiskToolPaths::discover(None, None, &host);
    assert_eq!(tools.mke2fs, some("/usr/sbin/mke2fs"));
    assert_eq!(tools.e2fsck, some("/env/e2fsck"));
    assert_eq!(tools.debugfs, None);
}

#[test]
fn search_path_of_two_directories_is_joined() {
    assert_eq!(
        library_parent_path(&some("/a/libkrun.dylib"), &some("/b/libkrunfw.dylib")),
        some("/a:/b")
    );
    assert_eq!(
        library_parent_path(&some("/a//b/libkrun.dylib"), &some("/a/./b/libkrunfw.dylib")),
        some("/a//b")
    );
    assert_eq!(library_parent_path(&some("/a:b/x"), &None), None);
    assert_eq!(library_parent_path(&None, &None), None);
    assert_eq!(library_parent_path(&None, &some("/b/x")), some("/b"));
}

#[test]
fn file_names_are_replaced() {
    assert_eq!(with_file_name("/opt/bin/morae", "helper"), "/opt/bin/helper");
    assert_eq!(with_file_name("morae", "helper"), "helper");
    assert_eq!(with_file_name("/opt/..", "helper"), "/opt/../helper");
    assert_eq!(with_file_name("/", "helper"), "/helper");
}

#[test]
fn architectures_are_whole_words() {
    assert!(architecture_matches("x86_64 arm64", "aarch64"));
    assert!(architecture_matches("Mach-O 64-bit executable arm64", "aarch64"));
    assert!(!architecture_matches("arm64e", "aarch64"));
    assert!(architecture_matches("x86_64", "x86_64"));
    assert!(!architecture_matches("x86", "x86_64"));
}

#[test]
fn symbols_are_looked_up_in_a_listing() {
    let listing = some("_krun_create_ctx\n_krun_start_enter");
    let (present, missing) = probe_symbols(&vec!["krun_create_ctx", "krun_free_ctx"], &listing);
    assert_eq!(present, Some(false));
    assert_eq!(missing, ["krun_free_ctx"]);
    assert_eq!(
        probe_symbols(&vec!["krun_create_ctx"], &None),
        (None, Vec::new())
    );
    assert_eq!(probe_symbols(&vec![], &None), (Some(true), Vec::new()));
    assert_eq!(library_has_symbol(&listing, "krun_start_enter"), Some(true));
    assert_eq!(library_has_symbol(&listing, "krun_add_disk"), Some(false));
    assert_eq!(library_has_symbol(&None, "krun_add_disk"), None);
}

#[test]
fn found_libraries_are_compared_with_the_pinned_version() {
    let probe = probe_libkrunfw(
        some("/opt/homebrew/lib/libkrunfw.dylib"),
        "aarch64",
        LibraryFacts {
            is_file: true,
            listing: None,
            canonical_path: some("/opt/homebrew/Cellar/libkrunfw/5.4.0/lib/libkrunfw.dylib"),
            architecture: some("arm64"),
            code_signature_valid: Some(true),
        },
    );
    assert!(probe.found);
    assert_eq!(probe.required_symbols_present, Some(true));
    assert_eq!(probe.version, some("5.4.0"));
    assert_eq!(probe.version_matches, Some(false));
    assert_eq!(probe.architecture_matches, Some(true));
}

#[test]
fn outputs_are_trimmed_and_may_not_be_empty() {
    assert_eq!(command_output(true, b"  15.1 \n"), some("15.1"));
    assert_eq!(command_output(true, b" \n\t"), None);
    assert_eq!(command_output(false, b"15.1"), None);
    assert_eq!(command_output(true, b"\xff"), some("\u{fffd}"));
}

#[test]
fn cache_probe_uses_the_nearest_existing_volume_ancestor() {
    let existing = vec!["/".to_owned(), "/state".to_owned()];
    let configured = "/state/not-created/cache";
    let directory = nearest_existing_directory(configured, &existing);
    assert_eq!(directory, some("/state"));
    let probe = probe_cache_volume(
        configured.to_owned(),
        Some(VolumeFacts {
            path: directory.unwrap(),
            available_bytes: Some(MIN_RECOMMENDED_CACHE_FREE_BYTES - 1),
            total_bytes: Some(MIN_RECOMMENDED_CACHE_FREE_BYTES),
            clone: CloneAttempt::NotSupported,
        }),
    );
    assert_eq!(probe.configured_path, configured);
    assert_eq!(probe.probe_path, some("/state"));
    assert!(probe.available_bytes.is_some());
    assert!(probe.total_bytes.is_some());
    assert_eq!(probe.free_space_sufficient, Some(false));
    assert_eq!(probe.reflink_supported, None);
    assert_eq!(nearest_existing_directory("relative/x", &existing), None);
    let nowhere = probe_cache_volume("/x".to_owned(), None);
    assert_eq!(
        nowhere.free_space_error,
        some("no existing cache path ancestor was found")
    );
    assert_eq!(nowhere.free_space_sufficient, None);
}

#[test]
fn clone_attempts_are_judged() {
    assert_eq!(
        probe_cow_clone(CloneAttempt::NoDirectory("denied".to_owned())),
        (None, some("cannot write cache volume: denied"))
    );
    assert_eq!(
        probe_cow_clone(CloneAttempt::NoSource("full".to_owned())),
        (None, some("cannot create reflink probe file: full"))
    );
    assert_eq!(
        probe_cow_clone(CloneAttempt::NotRun("no cp".to_owned())),
        (None, some("failed to execute reflink probe: no cp"))
    );
    assert_eq!(
        probe_cow_clone(CloneAttempt::Ran {
            success: false,
            copied: false,
            stderr: b"cp: unsupported\n".to_vec(),
        }),
        (Some(false), some("cp: unsupported"))
    );
}

fn poll(path_exists: bool, path_is_socket: bool, probe_error: Option<&str>) -> SocketPoll {
    SocketPoll {
        path_exists,
        path_is_socket,
        probe_error: probe_error.map(str::to_owned),
        child: ChildState::Running,
        elapsed: Duration::zero(),
    }
}

#[test]
fn network_readiness_needs_a_reachable_socket() {
    assert_eq!(
        wait_for_network_socket(poll(true, true, None)),
        Some((Some(true), None))
    );
    assert_eq!(
        wait_for_network_socket(poll(true, false, Some("refused"))),
        Some((Some(false), some("gvproxy created a non-socket path")))
    );
    assert_eq!(wait_for_network_socket(poll(false, false, Some("absent"))), None);
    let mut exited = poll(false, false, Some("absent"));
    exited.child = ChildState::Exited("exit status: 1".to_owned());
    assert_eq!(
        wait_for_network_socket(exited),
        Some((
            Some(false),
            some("gvproxy exited before socket readiness: exit status: 1")
        ))
    );
    let mut unknown = poll(false, false, Some("absent"));
    unknown.child = ChildState::Unknown("lost".to_owned());
    assert_eq!(
        wait_for_network_socket(unknown),
        Some((None, some("cannot inspect gvproxy: lost")))
    );
    let mut late = poll(false, false, Some("absent"));
    late.elapsed = Duration::from_secs(5);
    assert_eq!(
        wait_for_network_socket(late),
        Some((
            Some(false),
            some("gvproxy socket was not connectable within 5s; last socket error: absent")
        ))
    );
}

#[test]
fn network_probe_needs_an_executable_proxy() {
    let absent = probe_network(&probe_tool_path(None, false, None), true, None, "aarch64", None);
    assert_eq!(absent.error, some("gvproxy was not found"));
    assert!(!absent.helper_executable);
    let tool = good_tool("/usr/local/bin/gvproxy");
    assert!(network_needs_socket(&tool, true));
    assert!(!network_needs_socket(&tool, false));
    let plain = probe_network(&tool, false, some("arm64"), "aarch64", None);
    assert_eq!(plain.error, some("gvproxy is not executable"));
    assert_eq!(plain.helper_architecture_matches, Some(true));
    let homeless = probe_network(&tool, true, None, "aarch64", None);
    assert_eq!(
        homeless.error,
        some("no cache volume path is available for a socket probe")
    );
    let ready = probe_network(&tool, true, None, "aarch64", Some((Some(true), None)));
    assert_eq!(ready.socket_created, Some(true));
    assert_eq!(ready.error, None);
}

#[test]
fn probe_sockets_fit_their_address() {
    assert_eq!(probe_socket_uri("/tmp/x.sock"), some("unixgram:///tmp/x.sock"));
    assert_eq!(probe_socket_uri(&"x".repeat(104)), None);
    assert!(probe_socket_uri(&"x".repeat(103)).is_some());
}

#[test]
fn statuses_and_sizes_are_put_into_words() {
    assert_eq!(status_for(&[]), DoctorCheckStatus::Pass);
    assert_eq!(status_for(&[Some(true), None]), DoctorCheckStatus::Warn);
    assert_eq!(status_for(&[None, Some(false)]), DoctorCheckStatus::Fail);
    assert_eq!(DoctorCheckStatus::default().label(), "warn");
    assert_eq!(DoctorCheckStatus::Fail.label(), "fail");
    assert_eq!(probe_state(None), "unknown");
    assert_eq!(format_bytes(1023), "1023 bytes");
    assert_eq!(format_bytes(1024 * 1024 * 1024), "1.0 GiB");
    assert_eq!(format_bytes(1610612736), "1.5 GiB");
    assert_eq!(format_bytes(u64::MAX), "17179869183.9 GiB");
}
