use moraebox::backend::{OutputChannel, Signal};
use moraebox::doctor::discovery::{DiskToolPaths, HostFacts, NativeRuntimePaths};
use moraebox::lifecycle::{SessionState, TerminationReason};
use moraebox::output::{OutputBuffer, OutputChunk, OutputRead, OutputReadError};
use moraebox::sdk::configuration::{
    ManagedStorage, NativeConfigurationError, NativeRuntimeOverrides, NativeSandboxConfig,
    Platform, PreparedImage,
};
use moraebox::sdk::execution::{
    finish_execution, finish_io, first_error, io_steps, settle_stop, stdin_refusal, CollectStep,
    IoStep, OutputCollector, ReadEnd, RetainedAction, RetainedEvent, RetainedPhase, StartAction, StartEvent,
    StartPhase,
};
use moraebox::sdk::{
    list_sessions, removal_needs_stop, require_box_store, validate_output_page_size, IoRequest,
    SdkError, SessionRegistry, SessionRegistryConfig, MAX_IO_OUTPUT_READ_BYTES,
};
use moraebox::session::finish::{IoErrorKind, SessionIoFailure, SessionIoStream, SessionStatus};
use moraebox::session::handle::{wait_result, SessionError};
use moraebox::time::Duration;

fn some(text: &str) -> Option<String> {
    Some(text.to_owned())
}

fn resolved_paths() -> NativeRuntimePaths {
    NativeRuntimePaths {
        helper: some("/native/morae-vmm-helper"),
        libkrun: some("/native/lib/libkrun.dylib"),
        libkrunfw: some("/native/lib/libkrunfw.dylib"),
        gvproxy: some("/native/gvproxy"),
        library_search_path: some("/native/lib"),
    }
}

fn disk_tools() -> DiskToolPaths {
    DiskToolPaths {
        mke2fs: some("/native/mke2fs"),
        e2fsck: some("/native/e2fsck"),
        debugfs: some("/native/debugfs"),
    }
}

fn linux() -> Platform {
    Platform {
        os: "linux".to_owned(),
        architecture: "arm64".to_owned(),
        variant: some("v8"),
    }
}

fn status(id: &str, state: SessionState) -> SessionStatus {
    SessionStatus {
        session_id: id.to_owned(),
        backend: "process".to_owned(),
        resolved_image_digest: None,
        state,
        termination_reason: Some(TerminationReason::Exited),
        exit_code: Some(0),
        signal: None,
        timed_out: false,
        elapsed_micros: 1,
    }
}

fn registry(limit: usize) -> SessionRegistry {
    SessionRegistry::new(SessionRegistryConfig::new(limit, Duration::from_secs(60)))
}

fn chunk(cursor: u64, data: &[u8]) -> OutputChunk {
    OutputChunk {
        cursor,
        channel: OutputChannel::Stdout,
        data: data.to_vec(),
    }
}

#[test]
fn managed_storage_uses_one_cache_and_state_layout() {
    let storage = ManagedStorage::open("/tmp/cache".to_owned(), "/tmp/state".to_owned());

    assert_eq!(storage.cache_dir(), "/tmp/cache");
    assert_eq!(storage.state_dir(), "/tmp/state");
    assert_eq!(storage.boxes(), "/tmp/state");
    assert_eq!(storage.images(), "/tmp/cache");
    assert_eq!(storage.base_disks(), "/tmp/cache");
}

#[test]
fn native_config_applies_resolved_paths_compute_and_storage_defaults() {
    let storage = ManagedStorage::open("/tmp/cache".to_owned(), "/tmp/state".to_owned());
    let builder = NativeSandboxConfig::from_resolved(
        resolved_paths(),
        disk_tools(),
        9 * 1024 * 1024,
        4,
        1024,
    );
    let config = builder
        .libkrun_config(some("/rootfs"), &storage, some("/workspace"))
        .unwrap();

    assert_eq!(config.libkrunfw_path, some("/native/lib/libkrunfw.dylib"));
    assert_eq!(config.network_runtime_dir, "/tmp/cache/network");
    assert_eq!(config.workspace_disk, some("/workspace"));
    assert_eq!(config.debugfs_path, "/native/debugfs");
    assert_eq!((config.vcpus, config.memory_mib), (4, 1024));
}

#[test]
fn prepared_and_rootfs_sources_share_disk_and_platform_settings() {
    let builder = NativeSandboxConfig::from_resolved(
        resolved_paths(),
        disk_tools(),
        9 * 1024 * 1024,
        2,
        512,
    );
    let platform = linux();
    let from_rootfs = builder
        .rootfs_source(
            "/tmp/rootfs".to_owned(),
            Ok("sha256:rootfs".to_owned()),
            &platform,
        )
        .unwrap();
    let from_image = builder.prepared_image_source(
        PreparedImage {
            reference: "example.test/image:latest".to_owned(),
            manifest_digest: "sha256:prepared".to_owned(),
            rootfs: "/tmp/rootfs".to_owned(),
        },
        &platform,
    );

    for source in [&from_rootfs, &from_image] {
        assert_eq!(source.virtual_size_bytes, 9 * 1024 * 1024);
        assert_eq!(source.mke2fs_path, "/native/mke2fs");
        assert!(source.platform.starts_with("linux/"));
    }
    assert_eq!(from_image.manifest_digest, "sha256:prepared");
    assert!(matches!(
        builder.rootfs_source("/x".to_owned(), Err("unreadable".to_owned()), &platform),
        Err(NativeConfigurationError::Rootfs(_))
    ));
}

#[test]
fn native_configurations_need_helper_and_library() {
    let storage = ManagedStorage::open("/c".to_owned(), "/s".to_owned());
    let mut paths = resolved_paths();
    paths.helper = None;
    let builder = NativeSandboxConfig::from_resolved(paths, disk_tools(), 1, 1, 1);
    assert!(matches!(
        builder.libkrun_config(None, &storage, None),
        Err(NativeConfigurationError::MissingHelper)
    ));
    let mut paths = resolved_paths();
    paths.libkrun = None;
    let builder = NativeSandboxConfig::from_resolved(paths, disk_tools(), 1, 1, 1);
    assert!(matches!(
        builder.libkrun_config(None, &storage, None),
        Err(NativeConfigurationError::MissingLibkrun)
    ));
    let host = HostFacts {
        environment: vec![("MORAE_LIBKRUN_PATH".to_owned(), "/env/libkrun".to_owned())],
        search_path: vec![],
        executable: None,
        files: vec![],
    };
    let overrides = NativeRuntimeOverrides {
        helper: some("/given/helper"),
        libkrun: None,
        library_search_path: None,
        gvproxy: None,
    };
    let found = NativeSandboxConfig::discover(overrides, disk_tools(), 1, 1, 1, &host);
    let config = found.libkrun_config(None, &storage, None).unwrap();
    assert_eq!(config.helper_path, "/given/helper");
    assert_eq!(config.library_path, "/env/libkrun");
    assert_eq!(found.disk_tools().mke2fs, some("/native/mke2fs"));
    let runtime = found.box_runtime(&storage, None);
    assert_eq!(runtime.e2fsck_path, "/native/e2fsck");
    assert!(runtime.source.is_none());
}

#[test]
fn active_session_limit_is_stable_and_released_on_stop() {
    let mut registry = registry(1);
    registry.acquire_active_slot().unwrap();
    let generation = registry.register_session("a".to_owned());
    assert!(matches!(
        registry.acquire_active_slot(),
        Err(SdkError::SessionLimitExceeded { maximum: 1 })
    ));
    registry.release_active_slot("a", false);
    assert!(registry.acquire_active_slot().is_err());
    registry.release_active_slot("a", true);
    registry.acquire_active_slot().unwrap();
    assert!(registry.session("a").is_ok());
    assert!(registry.complete("a", generation));
}

#[test]
fn completed_session_output_expires_after_registry_ttl() {
    let mut registry = registry(2);
    registry.acquire_active_slot().unwrap();
    let generation = registry.register_session("a".to_owned());
    assert!(!registry.expire("a", generation, false));
    assert!(registry.session("a").is_ok());
    assert!(registry.expire("a", generation, true));
    assert!(matches!(
        registry.session("a"),
        Err(SdkError::UnknownSession(id)) if id == "a"
    ));
}

#[test]
fn newer_sessions_outlive_older_timers() {
    let mut registry = registry(2);
    registry.acquire_active_slot().unwrap();
    let first = registry.register_session("a".to_owned());
    registry.acquire_active_slot().unwrap();
    let second = registry.register_session("a".to_owned());
    assert_ne!(first, second);
    assert!(!registry.complete("a", first));
    assert!(!registry.expire("a", first, true));
    assert!(registry.session("a").is_ok());
}

#[test]
fn remove_stops_and_forgets_a_session_idempotently() {
    let mut registry = registry(1);
    registry.acquire_active_slot().unwrap();
    registry.register_session("a".to_owned());
    assert!(removal_needs_stop(SessionState::Running));
    assert!(!removal_needs_stop(SessionState::Dead));
    let entry = registry.remove("a").unwrap();
    assert!(entry.holds_slot);
    assert!(registry.acquire_active_slot().is_err());
    let waited = wait_result(status("a", SessionState::Dead), None, false).unwrap();
    let removed = settle_stop(None, waited).unwrap();
    assert_eq!(removed.state, SessionState::Dead);
    registry.finish_removal(entry);
    assert!(registry.remove("a").is_none());
    assert!(!registry.forget_session("a"));
    assert!(matches!(
        registry.session("a"),
        Err(SdkError::UnknownSession(id)) if id == "a"
    ));
    assert!(registry.acquire_active_slot().is_ok());
}

#[test]
fn shutdown_stops_and_forgets_connection_owned_sessions() {
    let mut registry = registry(3);
    for id in ["a", "b"] {
        registry.acquire_active_slot().unwrap();
        registry.register_session(id.to_owned());
    }
    assert!(registry.complete("b", 1));
    for id in ["a", "b"] {
        let entry = registry.remove(id).unwrap();
        assert_eq!(entry.holds_slot, id == "a");
        registry.finish_removal(entry);
    }
    assert!(registry.session("a").is_err());
    assert!(registry.session("b").is_err());
    for _ in 0..3 {
        registry.acquire_active_slot().unwrap();
    }
    assert!(registry.acquire_active_slot().is_err());
}

#[test]
fn waits_end_with_death_or_with_the_session() {
    assert!(wait_result(status("a", SessionState::Running), None, false).is_none());
    assert!(matches!(
        wait_result(status("a", SessionState::Failed), None, true),
        Some(Err(SessionError::SessionClosed))
    ));
    let failure = SessionIoFailure::operation(
        SessionIoStream::Stdout,
        IoErrorKind::BrokenPipe,
        "gone".to_owned(),
    );
    assert!(matches!(
        wait_result(status("a", SessionState::Dead), Some(failure), false),
        Some(Err(SessionError::Io(failure))) if failure.message == "gone"
    ));
}

#[test]
fn session_status_and_list_are_current_and_stably_ordered() {
    let listed = list_sessions(vec![
        status("b", SessionState::Running),
        status("a", SessionState::Dead),
        status("ab", SessionState::Dead),
    ]);
    let ids: Vec<&str> = listed.iter().map(|status| status.session_id.as_str()).collect();
    assert_eq!(ids, ["a", "ab", "b"]);
}

#[test]
fn manages_boxes_when_a_store_is_configured() {
    assert!(require_box_store(true).is_ok());
    assert!(matches!(
        require_box_store(false),
        Err(SdkError::BoxStoreNotConfigured)
    ));
}

#[test]
fn io_rejects_reads_above_the_api_limit() {
    let request = IoRequest {
        max_bytes: MAX_IO_OUTPUT_READ_BYTES + 1,
        ..IoRequest::default()
    };
    assert!(matches!(
        io_steps(request),
        Err(SdkError::OutputReadTooLarge {
            requested,
            maximum: MAX_IO_OUTPUT_READ_BYTES,
        }) if requested == MAX_IO_OUTPUT_READ_BYTES + 1
    ));
    assert!(matches!(
        validate_output_page_size(0),
        Err(SdkError::OutputReadEmpty)
    ));
    assert!(validate_output_page_size(1).is_ok());
}

#[test]
fn process_owned_session_supports_incremental_io() {
    let steps = io_steps(IoRequest {
        cursor: 4,
        max_bytes: 1024,
        stdin: Some(b"in".to_vec()),
        close_stdin: true,
        resize: Some((24, 80)),
        signal: Some(Signal::Hangup),
        wait_timeout: Some(Duration::from_secs(1)),
    })
    .unwrap();
    assert!(matches!(&steps[0], IoStep::Write(data) if data == b"in"));
    assert!(matches!(steps.last().unwrap(), IoStep::Read { cursor: 4, max_bytes: 1024 }));
    assert!(steps.iter().any(|step| matches!(step, IoStep::CloseStdin)));
    assert!(steps.iter().any(|step| matches!(step, IoStep::Resize(24, 80))));
    assert!(steps.iter().any(|step| matches!(step, IoStep::Signal(Signal::Hangup))));
    assert!(steps
        .iter()
        .any(|step| matches!(step, IoStep::AwaitChange { cursor: 4, .. })));
}

#[test]
fn io_long_poll_times_out_without_fixed_interval_polling() {
    let result = finish_io(
        status("a", SessionState::Running),
        OutputRead {
            chunks: vec![],
            next_cursor: 0,
            truncated: false,
        },
        true,
        None,
    )
    .unwrap();
    assert!(result.wait_timed_out);
    assert!(result.output.is_empty());
    assert_eq!(result.next_cursor, 0);
}

#[test]
fn typed_output_failure_releases_the_active_session_slot() {
    let failure = SessionIoFailure::operation(
        SessionIoStream::Stdout,
        IoErrorKind::Other,
        "injected".to_owned(),
    );
    let failed = finish_io(
        status("a", SessionState::Dead),
        OutputRead {
            chunks: vec![],
            next_cursor: 0,
            truncated: false,
        },
        false,
        Some(SessionError::Io(failure)),
    );
    assert!(matches!(failed, Err(SdkError::Session(SessionError::Io(_)))));
}

fn mixed_output(limit: usize) -> OutputBuffer {
    let mut buffer = OutputBuffer::new(limit);
    buffer.push(OutputChannel::Stdout, b"stdout");
    buffer.push(OutputChannel::Stderr, b"stderr");
    buffer
}

fn collect_retained_output(buffer: &OutputBuffer, page_bytes: usize) -> OutputRead {
    let mut collector = OutputCollector::new();
    loop {
        let end = match buffer.read(collector.cursor, page_bytes) {
            Ok(page) => ReadEnd::Page(page),
            Err(OutputReadError::CursorExpired { earliest, .. }) => ReadEnd::Expired { earliest },
            Err(error) => ReadEnd::Failed(SessionError::Output(error.message())),
        };
        collector = match collector.step(end) {
            CollectStep::Read(next) => next,
            CollectStep::Done(read) => return read,
            _ => panic!("the output can be read"),
        };
    }
}

#[test]
fn retained_output_collection_uses_bounded_pages() {
    let output = collect_retained_output(&mixed_output(1024), 3);

    assert_eq!(output.next_cursor, 12);
    assert_eq!(
        output
            .chunks
            .iter()
            .map(|chunk| chunk.data.len())
            .sum::<usize>(),
        12
    );
    let mut cursor = 0;
    for chunk in output.chunks {
        assert_eq!(chunk.cursor, cursor);
        assert!(chunk.data.len() <= 3);
        cursor += chunk.data.len() as u64;
    }
}

#[test]
fn exec_returns_retained_mixed_output_after_truncation() {
    let result = collect_retained_output(&mixed_output(8), 1024);

    assert!(result.truncated);
    assert_eq!(result.next_cursor, 12);
    assert_eq!(
        result
            .chunks
            .iter()
            .map(|chunk| chunk.data.len())
            .sum::<usize>(),
        8
    );
    let mut cursor = 4;
    for chunk in &result.chunks {
        assert_eq!(chunk.cursor, cursor);
        cursor += chunk.data.len() as u64;
    }
    assert_eq!(cursor, result.next_cursor);
    assert!(result
        .chunks
        .iter()
        .any(|chunk| chunk.channel == OutputChannel::Stdout));
    assert!(result
        .chunks
        .iter()
        .any(|chunk| chunk.channel == OutputChannel::Stderr));
}

#[test]
fn output_is_kept_under_its_position() {
    let mut buffer = mixed_output(8);
    assert_eq!((buffer.earliest_cursor(), buffer.next_cursor()), (4, 12));
    let page = buffer.read(5, 3).unwrap();
    assert_eq!(page.chunks[0].data, b"t");
    assert_eq!(page.chunks[1].cursor, 6);
    assert_eq!(page.chunks[1].data, b"st");
    assert_eq!(page.next_cursor, 8);
    assert!(page.truncated);
    assert_eq!(
        buffer.read(3, 1).unwrap_err(),
        OutputReadError::CursorExpired {
            requested: 3,
            earliest: 4
        }
    );
    let ahead = buffer.read(13, 1).unwrap_err();
    assert_eq!(
        ahead,
        OutputReadError::CursorAhead {
            requested: 13,
            next: 12
        }
    );
    assert_eq!(ahead.message(), "output cursor 13 is ahead of 12");
    assert!(buffer.read(12, 9).unwrap().chunks.is_empty());
    buffer.push(OutputChannel::Stdout, b"");
    assert_eq!(buffer.next_cursor(), 12);
    buffer.push(OutputChannel::Tty, b"a longer line");
    assert_eq!(buffer.read(buffer.earliest_cursor(), 99).unwrap().chunks[0].data, b"ger line");
    let mut nothing = OutputBuffer::new(0);
    nothing.push(OutputChannel::Stdout, b"gone");
    assert_eq!(nothing.earliest_cursor(), 4);
}

#[test]
fn pre_cancelled_start_does_not_create_a_session() {
    let (phase, action) = StartPhase::Asked.step(StartEvent::Checked { cancelled: true });
    assert!(matches!(action, StartAction::Fail(SdkError::RequestCancelled)));
    assert_eq!(phase, StartPhase::Over);
}

#[test]
fn cancellable_exec_waits_for_session_cleanup() {
    let (phase, action) = StartPhase::Asked.step(StartEvent::Checked { cancelled: false });
    assert!(matches!(action, StartAction::Start));
    let (phase, action) = phase.step(StartEvent::Cancelled);
    assert!(matches!(action, StartAction::AwaitStart));
    let (phase, action) = phase.step(StartEvent::Started {
        failed: None,
        cancelled: true,
    });
    assert!(matches!(action, StartAction::Stop));
    let (_, action) = phase.step(StartEvent::Stopped(Ok(status("a", SessionState::Dead))));
    assert!(matches!(action, StartAction::Fail(SdkError::RequestCancelled)));
}

#[test]
fn cancelled_retained_execution_is_removed_and_releases_its_slot() {
    let (phase, _) = RetainedPhase::Closing.step(RetainedEvent::StdinClosed);
    let (phase, action) = phase.step(RetainedEvent::Cancelled);
    assert!(matches!(action, RetainedAction::Remove));
    let (_, action) = phase.step(RetainedEvent::Removed(Ok(())));
    assert!(matches!(
        action,
        RetainedAction::Fail(SdkError::RequestCancelled)
    ));
}

#[test]
fn retained_execution_page_continues_through_session_io() {
    let (phase, action) = RetainedPhase::Closing.step(RetainedEvent::StdinClosed);
    assert!(matches!(action, RetainedAction::AwaitEnd));
    let (phase, action) =
        phase.step(RetainedEvent::Finished(Ok(status("a", SessionState::Dead))));
    assert!(matches!(action, RetainedAction::AwaitOutput));
    let (phase, action) = phase.step(RetainedEvent::OutputEnd(Ok(9)));
    assert!(matches!(action, RetainedAction::ReadAt(0)));
    let (_, action) = phase.step(RetainedEvent::Read(ReadEnd::Page(OutputRead {
        chunks: vec![chunk(0, b"page")],
        next_cursor: 4,
        truncated: false,
    })));
    match action {
        RetainedAction::Done(page) => {
            assert_eq!(page.next_cursor, 4);
            assert_eq!(page.output_next_cursor, 9);
            assert!(!page.truncated);
        }
        _ => panic!("the page is handed over"),
    }
}

#[test]
fn repeated_stop_returns_the_same_final_status() {
    let settled = settle_stop(None, Ok(status("a", SessionState::Dead))).unwrap();
    assert_eq!(settled.state, SessionState::Dead);
    assert!(matches!(
        settle_stop(
            Some(SessionError::Control("TERM failed".to_owned())),
            Ok(status("a", SessionState::Dead))
        ),
        Err(SdkError::Session(SessionError::Control(text))) if text == "TERM failed"
    ));
}

#[test]
fn executions_end_with_their_output() {
    assert!(stdin_refusal(Ok(()), SessionState::Running).is_none());
    assert!(stdin_refusal(Err(SessionError::SessionClosed), SessionState::Dead).is_none());
    assert!(matches!(
        stdin_refusal(Err(SessionError::SessionClosed), SessionState::Running),
        Some(SdkError::Session(SessionError::SessionClosed))
    ));
    let result = finish_execution(
        status("a", SessionState::Dead),
        OutputRead {
            chunks: vec![chunk(2, b"x")],
            next_cursor: 3,
            truncated: true,
        },
    );
    assert_eq!(result.status.session_id, "a");
    assert_eq!(result.output[0].cursor, 2);
    assert_eq!(result.next_cursor, 3);
    assert!(result.truncated);
}

#[test]
fn first_errors_are_kept() {
    let kept = first_error(None, Err(SdkError::OutputReadEmpty));
    assert!(matches!(&kept, Some(SdkError::OutputReadEmpty)));
    let kept = first_error(kept, Err(SdkError::RequestCancelled));
    assert!(matches!(kept, Some(SdkError::OutputReadEmpty)));
    assert!(first_error(None, Ok(())).is_none());
}

#[test]
fn sdk_errors_are_put_into_words() {
    assert_eq!(
        SdkError::SessionLimitExceeded { maximum: 4 }.message(),
        "active sandbox session limit reached (maximum 4)"
    );
    assert_eq!(
        SdkError::UnknownSession("x".to_owned()).message(),
        "unknown sandbox session x"
    );
}

#[test]
fn completed_sessions_are_kept_as_long_as_configured() {
    assert_eq!(
        registry(1).completed_session_ttl(),
        Duration::from_secs(60)
    );
}
