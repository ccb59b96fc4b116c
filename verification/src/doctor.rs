//! The diagnosis of a host: which parts of the native runtime it has, and what is wrong with them.

pub mod conduct;
pub mod discovery;
pub mod probe;

use vstd::prelude::*;
use vstd::string::*;

use crate::doctor::probe::{
    CacheVolumeProbe, LibraryProbe, NativeBinaryProbe, NetworkProbe, ToolProbe,
};
use crate::text::{copy_text, decimal, join, join_texts, same_text};

verus! {

pub const EXPECTED_LIBKRUN_VERSION: &'static str = "1.19.4";

pub const EXPECTED_LIBKRUNFW_VERSION: &'static str = "5.5.0";

/// What is wrong with the helper, if anything.
pub open spec fn helper_issues(helper: NativeBinaryProbe, entitled: bool) -> Seq<Seq<char>> {
    if !helper.regular_file {
        seq!["morae-vmm-helper is not a regular file"@]
    } else {
        issue_if(helper.executable != Some(true), "morae-vmm-helper is not executable"@) + issue_if(
            helper.architecture_matches != Some(true),
            "morae-vmm-helper architecture does not match the host"@,
        ) + issue_if(
            helper.code_signature_valid != Some(true),
            "morae-vmm-helper code signature is invalid or unverifiable"@,
        ) + issue_if(!entitled, "morae-vmm-helper lacks the Hypervisor entitlement"@)
    }
}

pub open spec fn issue_if(wrong: bool, text: Seq<char>) -> Seq<Seq<char>> {
    if wrong {
        seq![text]
    } else {
        Seq::empty()
    }
}

/// The missing symbols as the end of a message.
pub open spec fn missing_text(missing: Seq<Seq<char>>) -> Seq<char> {
    if missing.len() == 0 {
        Seq::empty()
    } else {
        ": missing "@ + crate::text::joined_by(missing, ", "@)
    }
}

/// What is wrong with a library, if anything.
pub open spec fn library_issues(
    name: Seq<char>,
    probe: LibraryProbe,
    expected_version: Seq<char>,
) -> Seq<Seq<char>> {
    if !probe.found {
        seq![name + " is not a regular file or its path was not resolved"@]
    } else {
        issue_if(
            probe.required_symbols_present != Some(true),
            name + " does not expose the required released ABI"@ + missing_text(
                crate::text::strings(probe.missing_symbols@),
            ),
        ) + issue_if(
            probe.version_matches != Some(true),
            name + " version is "@ + crate::doctor::discovery::or_command(
                crate::text::text_of(probe.version),
                "unverifiable"@,
            ) + " but the pinned released version is "@ + expected_version,
        ) + issue_if(
            probe.architecture_matches != Some(true),
            name + " architecture does not match the host"@,
        ) + issue_if(
            probe.code_signature_valid != Some(true),
            name + " code signature is invalid or unverifiable"@,
        )
    }
}

/// What stands against the start of a machine, if anything.
pub open spec fn runtime_issues(
    host_supported: bool,
    helper: NativeBinaryProbe,
    entitled: bool,
    libkrun: LibraryProbe,
    libkrunfw: LibraryProbe,
    require_network_api: bool,
    network_api: Option<bool>,
) -> Seq<Seq<char>> {
    issue_if(!host_supported, "native libkrun execution requires Apple Silicon macOS"@)
        + helper_issues(helper, entitled) + library_issues("libkrun"@, libkrun, EXPECTED_LIBKRUN_VERSION@)
        + library_issues("libkrunfw"@, libkrunfw, EXPECTED_LIBKRUNFW_VERSION@) + issue_if(
        require_network_api && network_api != Some(true),
        "libkrun does not expose the released krun_add_net_unixgram network ABI"@,
    )
}

/// The whole message of the issues, with the advice at its end.
pub open spec fn issues_text(issues: Seq<Seq<char>>) -> Seq<char> {
    crate::text::joined_by(
        issues.push(
            "run `morae doctor --json` and install or sign the pinned native dependencies"@,
        ),
        "; "@,
    )
}

/// Why a machine cannot be started on this host.
#[derive(Debug)]
pub struct NativeRuntimePreflightError {
    pub details: String,
}

impl NativeRuntimePreflightError {
    pub fn message(&self) -> (text: String)
        ensures
            text@ == "native runtime preflight failed: "@ + self.details@,
    {
        join("native runtime preflight failed: ", self.details.as_str())
    }
}

fn push_issue(issues: &mut Vec<String>, wrong: bool, text: String)
    ensures
        crate::text::strings(final(issues)@) == crate::text::strings(old(issues)@) + issue_if(
            wrong,
            text@,
        ),
{
    let ghost before = issues@;
    if wrong {
        issues.push(text);
    }
    assert(crate::text::strings(issues@) =~= crate::text::strings(before) + issue_if(wrong, text@));
}

fn validate_helper_probe(issues: &mut Vec<String>, helper: &NativeBinaryProbe, entitled: bool)
    ensures
        crate::text::strings(final(issues)@) == crate::text::strings(old(issues)@) + helper_issues(
            *helper,
            entitled,
        ),
{
    let ghost before = crate::text::strings(issues@);
    if !helper.regular_file {
        push_issue(issues, true, "morae-vmm-helper is not a regular file".to_owned());
        return ;
    }
    push_issue(
        issues,
        helper.executable != Some(true),
        "morae-vmm-helper is not executable".to_owned(),
    );
    push_issue(
        issues,
        helper.architecture_matches != Some(true),
        "morae-vmm-helper architecture does not match the host".to_owned(),
    );
    push_issue(
        issues,
        helper.code_signature_valid != Some(true),
        "morae-vmm-helper code signature is invalid or unverifiable".to_owned(),
    );
    push_issue(
        issues,
        !entitled,
        "morae-vmm-helper lacks the Hypervisor entitlement".to_owned(),
    );
    assert(crate::text::strings(issues@) =~= before + helper_issues(*helper, entitled));
}

fn validate_library_probe(
    issues: &mut Vec<String>,
    name: &str,
    probe: &LibraryProbe,
    expected_version: &str,
)
    ensures
        crate::text::strings(final(issues)@) == crate::text::strings(old(issues)@) + library_issues(
            name@,
            *probe,
            expected_version@,
        ),
{
    let ghost before = crate::text::strings(issues@);
    if !probe.found {
        push_issue(
            issues,
            true,
            join(name, " is not a regular file or its path was not resolved"),
        );
        return ;
    }
    let missing: String = if probe.missing_symbols.len() == 0 {
        assert(crate::text::strings(probe.missing_symbols@).len() == 0);
        String::new()
    } else {
        assert(crate::text::strings(probe.missing_symbols@).len() > 0);
        join(": missing ", join_texts(&probe.missing_symbols, ", ").as_str())
    };
    assert(missing@ =~= missing_text(crate::text::strings(probe.missing_symbols@)));
    let mut abi = join(name, " does not expose the required released ABI");
    abi.append(missing.as_str());
    push_issue(issues, probe.required_symbols_present != Some(true), abi);
    let version: &str = match &probe.version {
        Some(text) => text.as_str(),
        None => "unverifiable",
    };
    let mut mismatch = join(name, " version is ");
    mismatch.append(version);
    mismatch.append(" but the pinned released version is ");
    mismatch.append(expected_version);
    push_issue(issues, probe.version_matches != Some(true), mismatch);
    push_issue(
        issues,
        probe.architecture_matches != Some(true),
        join(name, " architecture does not match the host"),
    );
    push_issue(
        issues,
        probe.code_signature_valid != Some(true),
        join(name, " code signature is invalid or unverifiable"),
    );
    assert(crate::text::strings(issues@) =~= before + library_issues(
        name@,
        *probe,
        expected_version@,
    ));
}

/// Whether a machine can be started on this host.
pub fn validate_native_runtime_probes(
    host_supported: bool,
    helper: &NativeBinaryProbe,
    hypervisor_entitlement: bool,
    libkrun: &LibraryProbe,
    libkrunfw: &LibraryProbe,
    require_network_api: bool,
    network_api: Option<bool>,
) -> (validated: Result<(), NativeRuntimePreflightError>)
    ensures
        ({
            let issues = runtime_issues(
                host_supported,
                *helper,
                hypervisor_entitlement,
                *libkrun,
                *libkrunfw,
                require_network_api,
                network_api,
            );
            match validated {
                Ok(()) => issues.len() == 0,
                Err(error) => issues.len() > 0 && error.details@ == issues_text(issues),
            }
        }),
{
    let mut issues: Vec<String> = Vec::new();
    assert(crate::text::strings(issues@) =~= Seq::empty());
    push_issue(
        &mut issues,
        !host_supported,
        "native libkrun execution requires Apple Silicon macOS".to_owned(),
    );
    validate_helper_probe(&mut issues, helper, hypervisor_entitlement);
    validate_library_probe(&mut issues, "libkrun", libkrun, EXPECTED_LIBKRUN_VERSION);
    validate_library_probe(&mut issues, "libkrunfw", libkrunfw, EXPECTED_LIBKRUNFW_VERSION);
    push_issue(
        &mut issues,
        require_network_api && network_api != Some(true),
        "libkrun does not expose the released krun_add_net_unixgram network ABI".to_owned(),
    );
    let ghost expected = runtime_issues(
        host_supported,
        *helper,
        hypervisor_entitlement,
        *libkrun,
        *libkrunfw,
        require_network_api,
        network_api,
    );
    assert(crate::text::strings(issues@) =~= expected);
    assert(expected.len() == issues@.len());
    if issues.len() == 0 {
        return Ok(());
    }
    let ghost before = issues@;
    issues.push(
        "run `morae doctor --json` and install or sign the pinned native dependencies".to_owned(),
    );
    assert(crate::text::strings(issues@) =~= crate::text::strings(before).push(
        "run `morae doctor --json` and install or sign the pinned native dependencies"@,
    ));
    Err(NativeRuntimePreflightError { details: join_texts(&issues, "; ") })
}

#[derive(Debug, Clone, Copy, Default, PartialEq, Eq, Structural)]
pub enum DoctorCheckStatus {
    Pass,
    #[default]
    Warn,
    Fail,
}

impl DoctorCheckStatus {
    pub open spec fn label_spec(self) -> Seq<char> {
        match self {
            DoctorCheckStatus::Pass => "pass"@,
            DoctorCheckStatus::Warn => "warn"@,
            DoctorCheckStatus::Fail => "fail"@,
        }
    }

    pub fn label(&self) -> (text: &'static str)
        ensures
            text@ == self.label_spec(),
    {
        match self {
            DoctorCheckStatus::Pass => "pass",
            DoctorCheckStatus::Warn => "warn",
            DoctorCheckStatus::Fail => "fail",
        }
    }
}

#[derive(Debug, Default)]
pub struct DoctorCheck {
    pub id: String,
    pub status: DoctorCheckStatus,
    pub summary: String,
    pub remediation: Option<String>,
}

pub struct CheckView {
    pub id: Seq<char>,
    pub status: DoctorCheckStatus,
    pub summary: Seq<char>,
    pub remediation: Option<Seq<char>>,
}

impl View for DoctorCheck {
    type V = CheckView;

    open spec fn view(&self) -> CheckView {
        CheckView {
            id: self.id@,
            status: self.status,
            summary: self.summary@,
            remediation: crate::text::text_of(self.remediation),
        }
    }
}

/// The status of a check: it fails if anything is known to be wrong, and warns if anything is
/// unknown.
pub open spec fn status_of(values: Seq<Option<bool>>) -> DoctorCheckStatus {
    if values.contains(Some(false)) {
        DoctorCheckStatus::Fail
    } else if values.contains(None) {
        DoctorCheckStatus::Warn
    } else {
        DoctorCheckStatus::Pass
    }
}

/// The status of a check.
pub fn status_for(values: &[Option<bool>]) -> (status: DoctorCheckStatus)
    ensures
        status == status_of(values@),
{
    let mut unknown: bool = false;
    let mut i: usize = 0;
    while i < values.len()
        invariant
            i <= values@.len(),
            forall|j: int| 0 <= j < i ==> values@[j] != Some(false),
            unknown == exists|j: int| 0 <= j < i && values@[j] is None,
        decreases values@.len() - i,
    {
        match values[i] {
            Some(false) => {
                assert(values@[i as int] == Some(false));
                return DoctorCheckStatus::Fail;
            },
            Some(true) => {},
            None => {
                assert(values@[i as int] is None);
                unknown = true;
            },
        }
        i += 1;
    }
    if unknown {
        assert(values@.contains(None)) by {
            let j = choose|j: int| 0 <= j < i && values@[j] is None;
            assert(values@[j] == None::<bool>);
        }
        DoctorCheckStatus::Warn
    } else {
        DoctorCheckStatus::Pass
    }
}

pub open spec fn state_text(value: Option<bool>) -> Seq<char> {
    match value {
        Some(true) => "ready"@,
        Some(false) => "unavailable"@,
        None => "unknown"@,
    }
}

/// A finding in a word.
pub fn probe_state(value: Option<bool>) -> (text: &'static str)
    ensures
        text@ == state_text(value),
{
    match value {
        Some(true) => "ready",
        Some(false) => "unavailable",
        None => "unknown",
    }
}

pub open spec fn bool_text(value: bool) -> Seq<char> {
    if value {
        "true"@
    } else {
        "false"@
    }
}

fn write_bool(value: bool) -> (text: &'static str)
    ensures
        text@ == bool_text(value),
{
    if value {
        "true"
    } else {
        "false"
    }
}

pub const GIB: u64 = 1024 * 1024 * 1024;

/// A number of bytes in words: from one GiB on, in GiB with one decimal place, rounded down.
pub open spec fn bytes_text(bytes: u64) -> Seq<char> {
    if bytes >= GIB {
        crate::text::decimal_text((bytes / GIB) as nat) + "."@ + crate::text::decimal_text(
            ((bytes % GIB) * 10 / GIB as int) as nat,
        ) + " GiB"@
    } else {
        crate::text::decimal_text(bytes as nat) + " bytes"@
    }
}

/// Puts a number of bytes into words.
pub fn format_bytes(bytes: u64) -> (text: String)
    ensures
        text@ == bytes_text(bytes),
{
    if bytes >= GIB {
        let whole: u64 = bytes / GIB;
        let tenth: u64 = (bytes % GIB) * 10 / GIB;
        let mut text = decimal(whole);
        text.append(".");
        text.append(decimal(tenth).as_str());
        text.append(" GiB");
        text
    } else {
        join(decimal(bytes).as_str(), " bytes")
    }
}

/// A check; one that passes needs no advice.
pub open spec fn check_of(
    id: Seq<char>,
    status: DoctorCheckStatus,
    summary: Seq<char>,
    remediation: Seq<char>,
) -> CheckView {
    CheckView {
        id,
        status,
        summary,
        remediation: if status == DoctorCheckStatus::Pass {
            None
        } else {
            Some(remediation)
        },
    }
}

fn make_check(id: &str, status: DoctorCheckStatus, summary: String, remediation: &str) -> (check:
    DoctorCheck)
    ensures
        check@ == check_of(id@, status, summary@, remediation@),
{
    DoctorCheck {
        id: id.to_owned(),
        status,
        summary,
        remediation: if status == DoctorCheckStatus::Pass {
            None
        } else {
            Some(remediation.to_owned())
        },
    }
}

pub open spec fn or_unknown(text: Option<String>) -> Seq<char> {
    crate::doctor::discovery::or_command(crate::text::text_of(text), "unknown"@)
}

fn unless_known(text: &Option<String>) -> (known: &str)
    ensures
        known@ == or_unknown(*text),
{
    match text {
        Some(present) => present.as_str(),
        None => "unknown",
    }
}

pub open spec fn reflink_check(cache: CacheVolumeProbe) -> CheckView {
    check_of(
        "cache_reflink"@,
        status_of(seq![cache.reflink_supported]),
        "cache volume reflink support is "@ + state_text(cache.reflink_supported) + " at "@
            + crate::doctor::discovery::or_command(
            crate::text::text_of(cache.probe_path),
            cache.configured_path@,
        ),
        "Use an APFS/reflink-capable cache volume and pass it with --cache-dir."@,
    )
}

pub open spec fn free_space_check(cache: CacheVolumeProbe) -> CheckView {
    check_of(
        "cache_free_space"@,
        status_of(seq![cache.free_space_sufficient]),
        "cache volume has "@ + (match cache.available_bytes {
            Some(bytes) => bytes_text(bytes),
            None => "unknown"@,
        }) + " free; "@ + bytes_text(cache.minimum_recommended_free_bytes) + " is recommended"@,
        "Free cache space or select a larger volume with --cache-dir."@,
    )
}

pub open spec fn network_helper_check(network: NetworkProbe) -> CheckView {
    check_of(
        "network_helper"@,
        status_of(seq![Some(network.helper_executable), network.helper_architecture_matches]),
        "gvproxy executable="@ + bool_text(network.helper_executable) + ", architecture="@
            + or_unknown(network.helper_architecture),
        "Install a released executable gvproxy for the host architecture or pass --gvproxy."@,
    )
}

pub open spec fn network_socket_check(network: NetworkProbe) -> CheckView {
    check_of(
        "network_socket"@,
        status_of(seq![network.socket_created]),
        "gvproxy endpoint handshake is "@ + state_text(network.socket_created),
        "Check gvproxy compatibility and cache path permissions/length, then retry doctor."@,
    )
}

pub open spec fn helper_check(helper: NativeBinaryProbe, entitled: bool) -> CheckView {
    check_of(
        "helper_signing"@,
        status_of(
            seq![
                Some(helper.regular_file),
                helper.executable,
                helper.architecture_matches,
                helper.code_signature_valid,
                Some(entitled),
            ],
        ),
        "helper executable="@ + state_text(helper.executable) + ", architecture="@ + or_unknown(
            helper.architecture,
        ) + ", signature="@ + state_text(helper.code_signature_valid) + ", entitlement="@
            + bool_text(entitled),
        "Ad-hoc sign morae-vmm-helper with assets/moraebox-vmm.entitlements for this architecture."@,
    )
}

pub open spec fn library_check_spec(
    id: Seq<char>,
    probe: LibraryProbe,
    expected_version: Seq<char>,
) -> CheckView {
    check_of(
        id,
        status_of(
            seq![
                Some(probe.found),
                probe.required_symbols_present,
                probe.version_matches,
                probe.architecture_matches,
                probe.code_signature_valid,
            ],
        ),
        "found="@ + bool_text(probe.found) + ", version="@ + or_unknown(probe.version)
            + " (expected "@ + expected_version + "), architecture="@ + or_unknown(
            probe.architecture,
        ) + ", symbols="@ + state_text(probe.required_symbols_present) + ", signature="@
            + state_text(probe.code_signature_valid),
        "Install the pinned released Homebrew library for this architecture and ensure its code signature is valid."@,
    )
}

pub open spec fn network_abi_check(network_api: Option<bool>) -> CheckView {
    check_of(
        "network_abi"@,
        status_of(seq![network_api]),
        "krun_add_net_unixgram availability is "@ + state_text(network_api),
        "Install the pinned released libkrun build that exports krun_add_net_unixgram."@,
    )
}

pub open spec fn disk_tools_check(mke2fs: bool, e2fsck: bool, debugfs: bool) -> CheckView {
    check_of(
        "disk_tools"@,
        status_of(seq![Some(mke2fs), Some(e2fsck), Some(debugfs)]),
        "mke2fs found="@ + bool_text(mke2fs) + ", e2fsck found="@ + bool_text(e2fsck)
            + ", debugfs found="@ + bool_text(debugfs),
        "Install e2fsprogs or pass --mke2fs, --e2fsck, and --debugfs explicitly."@,
    )
}

pub open spec fn check_views(checks: Seq<DoctorCheck>) -> Seq<CheckView> {
    checks.map_values(|check: DoctorCheck| check@)
}

fn library_check(id: &str, probe: &LibraryProbe, expected_version: &str) -> (check: DoctorCheck)
    ensures
        check@ == library_check_spec(id@, *probe, expected_version@),
{
    let values: [Option<bool>; 5] = [
        Some(probe.found),
        probe.required_symbols_present,
        probe.version_matches,
        probe.architecture_matches,
        probe.code_signature_valid,
    ];
    assert(values@ =~= seq![
        Some(probe.found),
        probe.required_symbols_present,
        probe.version_matches,
        probe.architecture_matches,
        probe.code_signature_valid,
    ]);
    let mut summary = "found=".to_owned();
    summary.append(write_bool(probe.found));
    summary.append(", version=");
    summary.append(unless_known(&probe.version));
    summary.append(" (expected ");
    summary.append(expected_version);
    summary.append("), architecture=");
    summary.append(unless_known(&probe.architecture));
    summary.append(", symbols=");
    summary.append(probe_state(probe.required_symbols_present));
    summary.append(", signature=");
    summary.append(probe_state(probe.code_signature_valid));
    make_check(
        id,
        status_for(&values),
        summary,
        "Install the pinned released Homebrew library for this architecture and ensure its code signature is valid.",
    )
}

fn cache_checks(cache: &CacheVolumeProbe) -> (checks: (DoctorCheck, DoctorCheck))
    ensures
        checks.0@ == reflink_check(*cache),
        checks.1@ == free_space_check(*cache),
{
    let reflink: [Option<bool>; 1] = [cache.reflink_supported];
    assert(reflink@ =~= seq![cache.reflink_supported]);
    let mut reflink_summary = "cache volume reflink support is ".to_owned();
    reflink_summary.append(probe_state(cache.reflink_supported));
    reflink_summary.append(" at ");
    match &cache.probe_path {
        Some(path) => reflink_summary.append(path.as_str()),
        None => reflink_summary.append(cache.configured_path.as_str()),
    }
    let space: [Option<bool>; 1] = [cache.free_space_sufficient];
    assert(space@ =~= seq![cache.free_space_sufficient]);
    let mut space_summary = "cache volume has ".to_owned();
    match cache.available_bytes {
        Some(bytes) => space_summary.append(format_bytes(bytes).as_str()),
        None => space_summary.append("unknown"),
    }
    space_summary.append(" free; ");
    space_summary.append(format_bytes(cache.minimum_recommended_free_bytes).as_str());
    space_summary.append(" is recommended");
    (
        make_check(
            "cache_reflink",
            status_for(&reflink),
            reflink_summary,
            "Use an APFS/reflink-capable cache volume and pass it with --cache-dir.",
        ),
        make_check(
            "cache_free_space",
            status_for(&space),
            space_summary,
            "Free cache space or select a larger volume with --cache-dir.",
        ),
    )
}

fn network_checks(network: &NetworkProbe) -> (checks: (DoctorCheck, DoctorCheck))
    ensures
        checks.0@ == network_helper_check(*network),
        checks.1@ == network_socket_check(*network),
{
    let helper: [Option<bool>; 2] = [
        Some(network.helper_executable),
        network.helper_architecture_matches,
    ];
    assert(helper@ =~= seq![
        Some(network.helper_executable),
        network.helper_architecture_matches,
    ]);
    let mut helper_summary = "gvproxy executable=".to_owned();
    helper_summary.append(write_bool(network.helper_executable));
    helper_summary.append(", architecture=");
    helper_summary.append(unless_known(&network.helper_architecture));
    let socket: [Option<bool>; 1] = [network.socket_created];
    assert(socket@ =~= seq![network.socket_created]);
    (
        make_check(
            "network_helper",
            status_for(&helper),
            helper_summary,
            "Install a released executable gvproxy for the host architecture or pass --gvproxy.",
        ),
        make_check(
            "network_socket",
            status_for(&socket),
            join("gvproxy endpoint handshake is ", probe_state(network.socket_created)),
            "Check gvproxy compatibility and cache path permissions/length, then retry doctor.",
        ),
    )
}

fn signing_check(helper: &NativeBinaryProbe, entitled: bool) -> (check: DoctorCheck)
    ensures
        check@ == helper_check(*helper, entitled),
{
    let values: [Option<bool>; 5] = [
        Some(helper.regular_file),
        helper.executable,
        helper.architecture_matches,
        helper.code_signature_valid,
        Some(entitled),
    ];
    assert(values@ =~= seq![
        Some(helper.regular_file),
        helper.executable,
        helper.architecture_matches,
        helper.code_signature_valid,
        Some(entitled),
    ]);
    let mut summary = "helper executable=".to_owned();
    summary.append(probe_state(helper.executable));
    summary.append(", architecture=");
    summary.append(unless_known(&helper.architecture));
    summary.append(", signature=");
    summary.append(probe_state(helper.code_signature_valid));
    summary.append(", entitlement=");
    summary.append(write_bool(entitled));
    make_check(
        "helper_signing",
        status_for(&values),
        summary,
        "Ad-hoc sign morae-vmm-helper with assets/moraebox-vmm.entitlements for this architecture.",
    )
}

fn abi_check(network_api: Option<bool>) -> (check: DoctorCheck)
    ensures
        check@ == network_abi_check(network_api),
{
    let values: [Option<bool>; 1] = [network_api];
    assert(values@ =~= seq![network_api]);
    make_check(
        "network_abi",
        status_for(&values),
        join("krun_add_net_unixgram availability is ", probe_state(network_api)),
        "Install the pinned released libkrun build that exports krun_add_net_unixgram.",
    )
}

fn tools_check(mke2fs: bool, e2fsck: bool, debugfs: bool) -> (check: DoctorCheck)
    ensures
        check@ == disk_tools_check(mke2fs, e2fsck, debugfs),
{
    let values: [Option<bool>; 3] = [Some(mke2fs), Some(e2fsck), Some(debugfs)];
    assert(values@ =~= seq![Some(mke2fs), Some(e2fsck), Some(debugfs)]);
    let mut summary = "mke2fs found=".to_owned();
    summary.append(write_bool(mke2fs));
    summary.append(", e2fsck found=");
    summary.append(write_bool(e2fsck));
    summary.append(", debugfs found=");
    summary.append(write_bool(debugfs));
    make_check(
        "disk_tools",
        status_for(&values),
        summary,
        "Install e2fsprogs or pass --mke2fs, --e2fsck, and --debugfs explicitly.",
    )
}

/// All that was found out about a host.
#[derive(Debug)]
pub struct HostProbes {
    pub os: String,
    pub architecture: String,
    pub os_version: Option<String>,
    pub hypervisor_framework: bool,
    pub hypervisor_entitlement: bool,
    pub helper: NativeBinaryProbe,
    pub libkrun: LibraryProbe,
    pub libkrunfw: LibraryProbe,
    pub krunvm: ToolProbe,
    pub gvproxy: ToolProbe,
    pub mke2fs: ToolProbe,
    pub e2fsck: ToolProbe,
    pub debugfs: ToolProbe,
    pub cache_volume: CacheVolumeProbe,
    pub network: NetworkProbe,
    pub libkrun_network_api: Option<bool>,
}

/// The checks of a host, in the order in which they are reported.
pub open spec fn checks_of(probes: HostProbes) -> Seq<CheckView> {
    seq![
        reflink_check(probes.cache_volume),
        free_space_check(probes.cache_volume),
        network_helper_check(probes.network),
        network_socket_check(probes.network),
        helper_check(probes.helper, probes.hypervisor_entitlement),
        library_check_spec("libkrun_abi"@, probes.libkrun, EXPECTED_LIBKRUN_VERSION@),
        library_check_spec("libkrunfw_abi"@, probes.libkrunfw, EXPECTED_LIBKRUNFW_VERSION@),
        network_abi_check(probes.libkrun_network_api),
        disk_tools_check(probes.mke2fs.found, probes.e2fsck.found, probes.debugfs.found),
    ]
}

/// Checks a host.
pub fn build_checks(probes: &HostProbes) -> (checks: Vec<DoctorCheck>)
    ensures
        check_views(checks@) == checks_of(*probes),
{
    let (reflink, free_space) = cache_checks(&probes.cache_volume);
    let (network_helper, network_socket) = network_checks(&probes.network);
    let mut checks: Vec<DoctorCheck> = Vec::new();
    checks.push(reflink);
    checks.push(free_space);
    checks.push(network_helper);
    checks.push(network_socket);
    checks.push(signing_check(&probes.helper, probes.hypervisor_entitlement));
    checks.push(library_check("libkrun_abi", &probes.libkrun, EXPECTED_LIBKRUN_VERSION));
    checks.push(library_check("libkrunfw_abi", &probes.libkrunfw, EXPECTED_LIBKRUNFW_VERSION));
    checks.push(abi_check(probes.libkrun_network_api));
    checks.push(tools_check(probes.mke2fs.found, probes.e2fsck.found, probes.debugfs.found));
    assert(check_views(checks@) =~= checks_of(*probes));
    checks
}

/// A check as a warning.
pub open spec fn warning_text(check: CheckView) -> Seq<char> {
    match check.remediation {
        None => check.id + ": "@ + check.summary,
        Some(advice) => check.id + ": "@ + check.summary + "; remediation: "@ + advice,
    }
}

/// The warnings of checks: one for each that does not pass.
pub open spec fn warnings_of(checks: Seq<CheckView>) -> Seq<Seq<char>>
    decreases checks.len(),
{
    if checks.len() == 0 {
        Seq::empty()
    } else if checks.last().status == DoctorCheckStatus::Pass {
        warnings_of(checks.drop_last())
    } else {
        warnings_of(checks.drop_last()).push(warning_text(checks.last()))
    }
}

fn format_check_warning(check: &DoctorCheck) -> (text: String)
    ensures
        text@ == warning_text(check@),
{
    let mut text = join(check.id.as_str(), ": ");
    text.append(check.summary.as_str());
    match &check.remediation {
        Some(advice) => {
            text.append("; remediation: ");
            text.append(advice.as_str());
        },
        None => {},
    }
    text
}

fn collect_warnings(checks: &Vec<DoctorCheck>) -> (warnings: Vec<String>)
    ensures
        crate::text::strings(warnings@) == warnings_of(check_views(checks@)),
{
    let ghost views = check_views(checks@);
    let mut warnings: Vec<String> = Vec::new();
    let mut i: usize = 0;
    assert(views.subrange(0, 0) =~= Seq::empty());
    assert(crate::text::strings(warnings@) =~= Seq::empty());
    while i < checks.len()
        invariant
            i <= checks@.len(),
            views == check_views(checks@),
            crate::text::strings(warnings@) == warnings_of(views.subrange(0, i as int)),
        decreases checks@.len() - i,
    {
        let ghost before = warnings@;
        proof {
            let longer = views.subrange(0, i + 1);
            assert(longer.drop_last() =~= views.subrange(0, i as int));
            assert(longer.last() == checks@[i as int]@);
        }
        if checks[i].status != DoctorCheckStatus::Pass {
            let warning = format_check_warning(&checks[i]);
            let ghost text = warning@;
            warnings.push(warning);
            assert(crate::text::strings(warnings@) =~= crate::text::strings(before).push(text));
        }
        i += 1;
    }
    assert(views.subrange(0, i as int) =~= views);
    warnings
}

pub open spec fn host_supported_spec(probes: HostProbes) -> bool {
    probes.os@ == "macos"@ && probes.architecture@ == "aarch64"@
}

/// Whether commands can be run in a machine on this host.
pub open spec fn backend_ready(probes: HostProbes) -> bool {
    &&& runtime_issues(
        host_supported_spec(probes),
        probes.helper,
        probes.hypervisor_entitlement,
        probes.libkrun,
        probes.libkrunfw,
        false,
        None,
    ).len() == 0
    &&& probes.hypervisor_framework
    &&& probes.mke2fs.found
    &&& probes.e2fsck.found
    &&& probes.debugfs.found
    &&& probes.cache_volume.reflink_supported == Some(true)
}

/// Whether a machine on this host can have a network.
pub open spec fn network_ready(probes: HostProbes) -> bool {
    &&& backend_ready(probes)
    &&& probes.gvproxy.found
    &&& probes.network.helper_executable
    &&& probes.network.helper_architecture_matches == Some(true)
    &&& probes.network.socket_created == Some(true)
    &&& probes.libkrun_network_api == Some(true)
}

#[derive(Debug)]
pub struct DoctorReport {
    pub expected_libkrun_version: String,
    pub expected_libkrunfw_version: String,
    pub os: String,
    pub architecture: String,
    pub os_version: Option<String>,
    pub host_supported: bool,
    pub hypervisor_framework: bool,
    pub helper_path: Option<String>,
    pub hypervisor_entitlement: bool,
    pub helper: NativeBinaryProbe,
    pub libkrun: LibraryProbe,
    pub libkrunfw: LibraryProbe,
    pub krunvm: ToolProbe,
    pub gvproxy: ToolProbe,
    pub mke2fs: ToolProbe,
    pub e2fsck: ToolProbe,
    pub debugfs: ToolProbe,
    pub cache_volume: CacheVolumeProbe,
    pub network: NetworkProbe,
    pub cow_clone_supported: Option<bool>,
    pub libkrun_network_api: Option<bool>,
    pub native_backend_ready: bool,
    pub native_network_ready: bool,
    pub checks: Vec<DoctorCheck>,
    pub warnings: Vec<String>,
}

impl DoctorReport {
    /// Makes the report of a host.
    pub fn collect(probes: HostProbes) -> (report: DoctorReport)
        ensures
            report.expected_libkrun_version@ == EXPECTED_LIBKRUN_VERSION@,
            report.expected_libkrunfw_version@ == EXPECTED_LIBKRUNFW_VERSION@,
            report.os == probes.os,
            report.architecture == probes.architecture,
            report.os_version == probes.os_version,
            report.host_supported == host_supported_spec(probes),
            report.hypervisor_framework == probes.hypervisor_framework,
            crate::text::text_of(report.helper_path) == crate::text::text_of(probes.helper.path),
            report.hypervisor_entitlement == probes.hypervisor_entitlement,
            report.helper == probes.helper,
            report.libkrun == probes.libkrun,
            report.libkrunfw == probes.libkrunfw,
            report.krunvm == probes.krunvm,
            report.gvproxy == probes.gvproxy,
            report.mke2fs == probes.mke2fs,
            report.e2fsck == probes.e2fsck,
            report.debugfs == probes.debugfs,
            report.cache_volume == probes.cache_volume,
            report.network == probes.network,
            report.cow_clone_supported == probes.cache_volume.reflink_supported,
            report.libkrun_network_api == probes.libkrun_network_api,
            report.native_backend_ready == backend_ready(probes),
            report.native_network_ready == network_ready(probes),
            check_views(report.checks@) == checks_of(probes),
            crate::text::strings(report.warnings@) == warnings_of(checks_of(probes)),
    {
        let host_supported: bool = same_text(probes.os.as_str(), "macos") && same_text(
            probes.architecture.as_str(),
            "aarch64",
        );
        let native_runtime_ready: bool = validate_native_runtime_probes(
            host_supported,
            &probes.helper,
            probes.hypervisor_entitlement,
            &probes.libkrun,
            &probes.libkrunfw,
            false,
            None,
        ).is_ok();
        let native_network_abi_ready: bool = validate_native_runtime_probes(
            host_supported,
            &probes.helper,
            probes.hypervisor_entitlement,
            &probes.libkrun,
            &probes.libkrunfw,
            true,
            probes.libkrun_network_api,
        ).is_ok();
        let cow_clone_supported: Option<bool> = probes.cache_volume.reflink_supported;
        let native_backend_ready: bool = native_runtime_ready && probes.hypervisor_framework
            && probes.mke2fs.found && probes.e2fsck.found && probes.debugfs.found
            && cow_clone_supported == Some(true);
        let native_network_ready: bool = native_backend_ready && probes.gvproxy.found
            && probes.network.helper_executable && probes.network.helper_architecture_matches
            == Some(true) && probes.network.socket_created == Some(true)
            && native_network_abi_ready;
        let checks = build_checks(&probes);
        let warnings = collect_warnings(&checks);
        let helper_path = copy_text(&probes.helper.path);
        DoctorReport {
            expected_libkrun_version: EXPECTED_LIBKRUN_VERSION.to_owned(),
            expected_libkrunfw_version: EXPECTED_LIBKRUNFW_VERSION.to_owned(),
            os: probes.os,
            architecture: probes.architecture,
            os_version: probes.os_version,
            host_supported,
            hypervisor_framework: probes.hypervisor_framework,
            helper_path,
            hypervisor_entitlement: probes.hypervisor_entitlement,
            helper: probes.helper,
            libkrun: probes.libkrun,
            libkrunfw: probes.libkrunfw,
            krunvm: probes.krunvm,
            gvproxy: probes.gvproxy,
            mke2fs: probes.mke2fs,
            e2fsck: probes.e2fsck,
            debugfs: probes.debugfs,
            cache_volume: probes.cache_volume,
            network: probes.network,
            cow_clone_supported,
            libkrun_network_api: probes.libkrun_network_api,
            native_backend_ready,
            native_network_ready,
            checks,
            warnings,
        }
    }
}

/// A host without one of the libraries is never called ready.
pub proof fn law_ready_needs_libraries(probes: HostProbes)
    ensures
        backend_ready(probes) ==> probes.libkrun.found && probes.libkrunfw.found,
        network_ready(probes) ==> backend_ready(probes),
{
}

/// Every check that does not pass comes with advice, and with a warning.
pub proof fn law_failed_checks_have_advice(probes: HostProbes)
    ensures
        forall|i: int|
            0 <= i < checks_of(probes).len() ==> ((#[trigger] checks_of(probes)[i]).remediation
                is None <==> checks_of(probes)[i].status == DoctorCheckStatus::Pass),
        warnings_of(checks_of(probes)).len() == 0 <==> forall|i: int|
            0 <= i < checks_of(probes).len() ==> (#[trigger] checks_of(probes)[i]).status
                == DoctorCheckStatus::Pass,
{
    assert forall|i: int| 0 <= i < checks_of(probes).len() implies ((#[trigger] checks_of(
        probes,
    )[i]).remediation is None <==> checks_of(probes)[i].status == DoctorCheckStatus::Pass) by {
        let check = checks_of(probes)[i];
        assert(i == 0 || i == 1 || i == 2 || i == 3 || i == 4 || i == 5 || i == 6 || i == 7 || i
            == 8);
    }
    lemma_no_warnings(checks_of(probes));
}

proof fn lemma_no_warnings(checks: Seq<CheckView>)
    ensures
        warnings_of(checks).len() == 0 <==> forall|i: int|
            0 <= i < checks.len() ==> (#[trigger] checks[i]).status == DoctorCheckStatus::Pass,
    decreases checks.len(),
{
    if checks.len() > 0 {
        lemma_no_warnings(checks.drop_last());
        let last = checks.len() - 1;
        assert(checks.last() == checks[last]);
        assert forall|i: int|
            0 <= i < last implies checks.drop_last()[i] == #[trigger] checks[i] by {}
        if warnings_of(checks).len() == 0 {
            assert forall|i: int| 0 <= i < checks.len() implies (#[trigger] checks[i]).status
                == DoctorCheckStatus::Pass by {
                if i < last {
                    assert(checks.drop_last()[i] == checks[i]);
                }
            }
        } else if checks.last().status == DoctorCheckStatus::Pass {
            let i = choose|i: int|
                0 <= i < last && (#[trigger] checks.drop_last()[i]).status
                    != DoctorCheckStatus::Pass;
            assert(checks[i].status != DoctorCheckStatus::Pass);
        }
    }
}

} // verus!
