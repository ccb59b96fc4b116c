use moraebox::backend::{BackendError, EnvironmentComponent};
use moraebox::helper::bridge::{
    required_capabilities, BridgeError, ExecRequest, GuestFrame, HostFrame,
};
use moraebox::helper::environment::{merge_environment, HostVariable};
use moraebox::helper::headers::listable_length;
use moraebox::helper::opening::Opening;
use moraebox::helper::transfer::{
    extract_copy_archive, CopyArchive, ExtractStep, PreparedCopy, SourceEntry,
};
use moraebox::libkrun::root::prepared_key;
use moraebox::libkrun::CopySpec;

fn hello() -> GuestFrame {
    GuestFrame::Hello {
        agent_version: "test".to_owned(),
        capabilities: required_capabilities()
            .into_iter()
            .map(str::to_owned)
            .collect(),
    }
}

fn copy(source: &str, destination: &str) -> CopySpec {
    CopySpec {
        source: source.to_owned(),
        destination: destination.to_owned(),
    }
}

fn command() -> ExecRequest {
    ExecRequest {
        command: vec!["/bin/true".to_owned()],
        cwd: "/".to_owned(),
        environment: vec![],
        tty: false,
        rows: 24,
        cols: 80,
    }
}

fn archive_of(data: &[u8]) -> PreparedCopy {
    let mut archive = CopyArchive::new(1 << 20);
    archive
        .append_copy_entry("/a", "root", &SourceEntry::File(data.to_vec()), 0o600)
        .unwrap();
    archive.finish().unwrap()
}

#[test]
fn files_are_copied_in_before_any_is_asked_for_and_the_command_comes_last() {
    let mut opening = Opening::begin(
        hello(),
        vec![copy("/host/a", "/guest/a"), copy("/host/b", "/guest/b")],
        vec![copy("/guest/c", "/host/c")],
        100,
        command(),
    )
    .unwrap();
    let mut frames = Vec::new();
    let mut sources = Vec::new();
    while let Some(source) = opening.source() {
        sources.push(source.to_owned());
        frames.extend(opening.take(&archive_of(b"data")).unwrap());
    }
    let (last, bridge) = opening.finish().unwrap();
    frames.extend(last);
    assert_eq!(sources, ["/host/a", "/host/b"]);
    let kinds: Vec<String> = frames
        .iter()
        .map(|frame| match frame {
            HostFrame::CopyInStart {
                transfer_id,
                destination,
                ..
            } => format!("start {transfer_id} {destination}"),
            HostFrame::CopyInChunk { transfer_id, .. } => format!("chunk {transfer_id}"),
            HostFrame::CopyInEnd { transfer_id } => format!("end {transfer_id}"),
            HostFrame::CopyOutRequest {
                transfer_id,
                source,
                max_bytes,
            } => format!("request {transfer_id} {source} {max_bytes}"),
            HostFrame::Exec { argv, .. } => format!("exec {}", argv[0]),
            _ => panic!("unexpected frame"),
        })
        .collect();
    assert_eq!(
        kinds,
        [
            "start 1 /guest/a",
            "chunk 1",
            "end 1",
            "start 2 /guest/b",
            "chunk 2",
            "end 2",
            "request 3 /guest/c 100",
            "exec /bin/true",
        ]
    );
    assert_eq!(bridge.pending.len(), 1);
    assert_eq!(bridge.pending[0].transfer_id, 3);
    assert_eq!(bridge.pending[0].destination, "/host/c");
    assert_eq!(bridge.limit, 100);
}

#[test]
fn nothing_is_opened_without_a_hello() {
    assert!(matches!(
        Opening::begin(GuestFrame::Other, vec![], vec![], 1, command()),
        Err(BridgeError::ExpectedHello)
    ));
    assert!(matches!(
        Opening::begin(
            GuestFrame::Hello {
                agent_version: "test".to_owned(),
                capabilities: vec![],
            },
            vec![],
            vec![],
            1,
            command()
        ),
        Err(BridgeError::MissingCapabilities(_))
    ));
}

fn sparse_header(size: u64) -> Vec<u8> {
    let mut header = tar::Header::new_gnu();
    header.set_entry_type(tar::EntryType::GNUSparse);
    header.set_size(size);
    header.set_mode(0o644);
    let fields = header.as_gnu_mut().unwrap();
    fields.set_real_size(0);
    fields.set_is_extended(true);
    header.set_cksum();
    header.as_bytes().to_vec()
}

fn read_error(archive: &[u8]) -> String {
    match extract_copy_archive(archive).1 {
        Some(BridgeError::Io(text)) => text,
        other => panic!("unexpected outcome: {other:?}"),
    }
}

#[test]
fn sparse_entries_are_listed_up_to_the_block_that_cannot_be_added() {
    let mut archive = sparse_header(u64::MAX - 1023);
    archive.extend_from_slice(&[0; 512]);
    assert_eq!(listable_length(&archive), 512);
    assert_eq!(read_error(&archive), "failed to read extension");
    let mut longer = sparse_header(u64::MAX - 1535);
    longer.extend_from_slice(&[0; 504]);
    longer.push(1);
    longer.extend_from_slice(&[0; 7 + 512]);
    assert_eq!(listable_length(&longer), 1024);
    assert_eq!(read_error(&longer), "failed to read extension");
    longer[512 + 504] = 0;
    assert_eq!(listable_length(&longer), longer.len());
    assert_eq!(
        read_error(&longer),
        "mismatch in sparse file chunks and entry size in header"
    );
    let mut plain = sparse_header(u64::MAX - 511);
    plain.extend_from_slice(&[0; 512]);
    assert_eq!(listable_length(&plain), plain.len());
    assert_eq!(read_error(&plain), "size overflow");
}

#[test]
fn what_stands_before_such_a_block_is_refused_first() {
    let mut header = tar::Header::new_gnu();
    header.set_path("elsewhere").unwrap();
    header.set_size(0);
    header.set_mode(0o644);
    header.set_cksum();
    let mut archive = header.as_bytes().to_vec();
    archive.extend_from_slice(&sparse_header(u64::MAX - 2047));
    archive.extend_from_slice(&[0; 1024]);
    assert_eq!(listable_length(&archive), archive.len());
    archive[512..1024].copy_from_slice(&sparse_header(u64::MAX - 1535));
    assert_eq!(listable_length(&archive), 1024);
    assert!(matches!(
        extract_copy_archive(&archive).1,
        Some(BridgeError::UnsafeCopyArchive(text)) if text == "invalid or duplicate path elsewhere"
    ));
}

fn with_attributes(record: &[u8]) -> Vec<u8> {
    let mut header = tar::Header::new_ustar();
    header.set_entry_type(tar::EntryType::XHeader);
    header.set_path("attributes").unwrap();
    header.set_size(record.len() as u64);
    header.set_mode(0o644);
    header.set_cksum();
    let mut archive = header.as_bytes().to_vec();
    archive.extend_from_slice(record);
    archive.resize(1024, 0);
    archive
}

#[test]
fn sizes_among_attributes_count() {
    let mut archive = with_attributes(b"29 size=18446744073709549568\n");
    archive.extend_from_slice(&sparse_header(0));
    archive.extend_from_slice(&[0; 512]);
    assert_eq!(listable_length(&archive), 1536);
    assert!(extract_copy_archive(&archive).1.is_some());
    assert_eq!(listable_length(&archive[1024..]), 1024);
    assert_eq!(listable_length(&archive[..1024]), 1024);

    let mut header = tar::Header::new_gnu();
    header.set_path("root").unwrap();
    header.set_size(0);
    header.set_mode(0o644);
    header.set_cksum();
    for (record, listed) in [
        (b"13 size=1024\n".as_slice(), 3584),
        (b"14 size=+1024\n".as_slice(), 3584),
        (b"broken\n13 size=1024\n".as_slice(), 2048),
        (b"13 size=1024x\n".as_slice(), 2048),
        (b"12 size=10x\n13 size=1024\n".as_slice(), 2048),
        (b"7 a=bc\n".as_slice(), 2048),
    ] {
        let mut archive = with_attributes(record);
        archive.extend_from_slice(header.as_bytes());
        archive.extend_from_slice(&sparse_header(u64::MAX - 2559));
        archive.extend_from_slice(&[0; 512 + 1024]);
        assert_eq!(archive.len(), 3584);
        assert_eq!(listable_length(&archive), listed, "{record:?}");
    }
}

#[test]
fn data_that_look_like_headers_are_data() {
    let mut data = sparse_header(u64::MAX - 2047);
    data.extend_from_slice(b"size=18446744073709551615");
    data.resize(4096, 1);
    for name in ["root".to_owned(), format!("root/{}", "n".repeat(150))] {
        let mut archive = CopyArchive::new(1 << 20);
        archive
            .append_copy_entry("/d", "root", &SourceEntry::Directory, 0o755)
            .unwrap();
        if name != "root" {
            archive
                .append_copy_entry("/d/n", &name, &SourceEntry::File(data.clone()), 0o640)
                .unwrap();
        } else {
            archive = CopyArchive::new(1 << 20);
            archive
                .append_copy_entry("/d", &name, &SourceEntry::File(data.clone()), 0o640)
                .unwrap();
        }
        let bytes = archive.finish().unwrap().bytes;
        assert_eq!(listable_length(&bytes), bytes.len());
        let (steps, failure) = extract_copy_archive(&bytes);
        assert!(failure.is_none());
        let found = steps
            .iter()
            .find_map(|step| match step {
                ExtractStep::CreateFile {
                    path,
                    mode,
                    position,
                    size,
                } => Some((path.clone(), *mode, *position as usize, *size as usize)),
                _ => None,
            })
            .unwrap();
        assert_eq!(found.0, name.as_bytes());
        assert_eq!(found.1, 0o640);
        assert_eq!(bytes[found.2..found.2 + found.3], data);
    }
    let mut behind = archive_of(b"data").bytes;
    behind.extend_from_slice(&sparse_header(u64::MAX - 4095));
    behind.extend_from_slice(&[0; 4096]);
    assert_eq!(listable_length(&behind), behind.len());
    assert!(extract_copy_archive(&behind).1.is_none());
    assert_eq!(listable_length(&[]), 0);
}

#[test]
fn links_come_back_as_an_archive_keeps_them() {
    for (target, kept) in [
        ("a/b", "a/b"),
        ("a/", "a/"),
        ("./a", "./a"),
        ("a//./b/", "a/b/"),
        ("b/../a/.", "b/../a"),
    ] {
        let mut archive = CopyArchive::new(1 << 20);
        archive
            .append_copy_entry("/d", "root", &SourceEntry::Directory, 0o755)
            .unwrap();
        archive
            .append_copy_entry(
                "/d/l",
                "root/l",
                &SourceEntry::Symlink(target.to_owned()),
                0o777,
            )
            .unwrap();
        let (steps, failure) = extract_copy_archive(&archive.finish().unwrap().bytes);
        assert!(failure.is_none());
        assert!(steps.iter().any(|step| matches!(
            step,
            ExtractStep::CreateLink { path, target } if path == b"root/l" && target == kept.as_bytes()
        )));
    }
}

fn variable(name: &str, value: &str) -> HostVariable {
    HostVariable {
        name: Ok(name.to_owned()),
        value: Some(value.to_owned()),
    }
}

fn pair(name: &str, value: &str) -> (String, String) {
    (name.to_owned(), value.to_owned())
}

#[test]
fn explicit_variables_override_inherited_ones() {
    let merged = merge_environment(
        &vec![variable("PATH", "/bin"), variable("HOME", "/root")],
        &vec![pair("PATH", "/own"), pair("EXTRA", "1"), pair("PATH", "/last")],
    )
    .unwrap();
    assert_eq!(
        merged,
        [
            pair("EXTRA", "1"),
            pair("HOME", "/root"),
            pair("PATH", "/last"),
        ]
    );
}

#[test]
fn variables_that_are_not_unicode_are_refused() {
    let value = HostVariable {
        name: Ok("A".to_owned()),
        value: None,
    };
    let name = HostVariable {
        name: Err("\"\\xFF\"".to_owned()),
        value: None,
    };
    let error = merge_environment(&vec![variable("B", "1"), value], &vec![pair("A", "2")]);
    assert!(matches!(
        error,
        Err(BackendError::NonUnicodeEnvironment {
            variable,
            component: EnvironmentComponent::Value,
        }) if variable == "\"A\""
    ));
    let error = merge_environment(&vec![name], &vec![]);
    assert!(matches!(
        error,
        Err(BackendError::NonUnicodeEnvironment {
            variable,
            component: EnvironmentComponent::Name,
        }) if variable == "\"\\xFF\""
    ));
}

#[test]
fn prepared_disks_are_keyed_by_image_workspace_and_base() {
    let key = prepared_key("sha256:a", &Some("sha256:w".to_owned()), "base");
    assert_eq!(key.image_digest, "sha256:a");
    assert_eq!(key.workspace_digest.as_deref(), Some("sha256:w"));
    assert_eq!(key.policy_digest, "base");
    assert!(prepared_key("sha256:a", &None, "base")
        .workspace_digest
        .is_none());
}
