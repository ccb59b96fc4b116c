//! What the probes of a host make of what was seen.

use vstd::prelude::*;
use vstd::string::*;

use crate::doctor::{EXPECTED_LIBKRUNFW_VERSION, EXPECTED_LIBKRUN_VERSION};
use crate::libkrun::network::{stderr_diagnostics, SOCKET_PATH_LIMIT};
use crate::paths::{components, parent};
use crate::text::{contains_text, find_word, from_utf8_lossy, join, same_text, trim};
use crate::time::Duration;

verus! {

pub const MIN_RECOMMENDED_CACHE_FREE_BYTES: u64 = 8 * 1024 * 1024 * 1024;

pub const NETWORK_SOCKET_TIMEOUT_SECS: u64 = 5;

#[derive(Debug, Default)]
pub struct LibraryProbe {
    pub found: bool,
    pub path: Option<String>,
    pub required_symbols_present: Option<bool>,
    pub missing_symbols: Vec<String>,
    pub version: Option<String>,
    pub version_matches: Option<bool>,
    pub architecture: Option<String>,
    pub architecture_matches: Option<bool>,
    pub code_signature_valid: Option<bool>,
}

#[derive(Debug, Default)]
pub struct NativeBinaryProbe {
    pub path: Option<String>,
    pub regular_file: bool,
    pub executable: Option<bool>,
    pub architecture: Option<String>,
    pub architecture_matches: Option<bool>,
    pub code_signature_valid: Option<bool>,
}

#[derive(Debug, Default)]
pub struct CacheVolumeProbe {
    pub configured_path: String,
    pub probe_path: Option<String>,
    pub available_bytes: Option<u64>,
    pub total_bytes: Option<u64>,
    pub minimum_recommended_free_bytes: u64,
    pub free_space_sufficient: Option<bool>,
    pub reflink_supported: Option<bool>,
    pub free_space_error: Option<String>,
    pub reflink_error: Option<String>,
}

#[derive(Debug, Default)]
pub struct NetworkProbe {
    pub helper_executable: bool,
    pub helper_architecture: Option<String>,
    pub helper_architecture_matches: Option<bool>,
    pub socket_created: Option<bool>,
    pub error: Option<String>,
}

#[derive(Debug, Default)]
pub struct ToolProbe {
    pub found: bool,
    pub path: Option<String>,
    pub version: Option<String>,
}

/// What a program wrote, if it succeeded and wrote anything but white space.
pub open spec fn accepted_output(success: bool, stdout: Seq<u8>) -> Option<Seq<char>> {
    let text = crate::text::trim_of(crate::text::lossy_text(stdout));
    if success && text.len() > 0 {
        Some(text)
    } else {
        None
    }
}

/// Takes the output of a program.
pub fn command_output(success: bool, stdout: &[u8]) -> (output: Option<String>)
    ensures
        crate::text::text_of(output) == accepted_output(success, stdout@),
{
    if !success {
        return None;
    }
    let written = from_utf8_lossy(stdout);
    let text = trim(written.as_str());
    if text.as_str().unicode_len() == 0 {
        None
    } else {
        Some(text)
    }
}

/// The name under which tools list an architecture.
pub open spec fn listed_architecture(expected: Seq<char>) -> Seq<char> {
    if expected == "aarch64"@ {
        "arm64"@
    } else {
        expected
    }
}

/// Whether the expected architecture is one of those that a tool lists.
pub fn architecture_matches(actual: &str, expected: &str) -> (matches: bool)
    ensures
        matches == crate::text::has_word(actual@, listed_architecture(expected@), 0),
{
    if same_text(expected, "aarch64") {
        find_word(actual, "arm64")
    } else {
        find_word(actual, expected)
    }
}

/// Whether each listed architecture is known to be the expected one.
pub open spec fn matching(actual: Option<Seq<char>>, expected: Seq<char>) -> Option<bool> {
    match actual {
        Some(text) => Some(crate::text::has_word(text, listed_architecture(expected), 0)),
        None => None,
    }
}

fn match_architecture(actual: &Option<String>, expected: &str) -> (matches: Option<bool>)
    ensures
        matches == matching(crate::text::text_of(*actual), expected@),
{
    match actual {
        Some(text) => Some(architecture_matches(text.as_str(), expected)),
        None => None,
    }
}

/// The version in the components of a path from a position on: what follows a package's name in
/// the cellar.
pub open spec fn cellar_version(parts: Seq<Seq<char>>, package: Seq<char>, from: int) -> Option<
    Seq<char>,
>
    decreases parts.len() - from,
{
    if 0 <= from && from + 2 < parts.len() {
        if parts[from] == "Cellar"@ && parts[from + 1] == package {
            Some(parts[from + 2])
        } else {
            cellar_version(parts, package, from + 1)
        }
    } else {
        None
    }
}

pub open spec fn version_of(canonical: Option<Seq<char>>, package: Seq<char>) -> Option<Seq<char>> {
    match canonical {
        Some(path) => cellar_version(crate::paths::components_from(path, 0), package, 0),
        None => None,
    }
}

/// The version of a package, by the canonical path of one of its files.
pub fn homebrew_version(canonical: &Option<String>, package: &str) -> (version: Option<String>)
    ensures
        crate::text::text_of(version) == version_of(crate::text::text_of(*canonical), package@),
{
    let path = match canonical {
        Some(path) => path,
        None => {
            return None;
        },
    };
    let parts = components(path.as_str());
    let ghost views = crate::text::strings(parts@);
    assert(views.len() == parts@.len());
    let count: usize = parts.len();
    if count < 3 {
        return None;
    }
    let mut i: usize = 0;
    while i < count - 2
        invariant
            3 <= count == parts@.len(),
            views == crate::text::strings(parts@),
            i <= count - 2,
            cellar_version(views, package@, 0) == cellar_version(views, package@, i as int),
            version_of(crate::text::text_of(*canonical), package@) == cellar_version(
                views,
                package@,
                0,
            ),
        decreases count - i,
    {
        assert(views[i as int] == parts@[i as int]@);
        assert(views[i + 1] == parts@[i + 1]@);
        assert(views[i + 2] == parts@[i + 2]@);
        if same_text(parts[i].as_str(), "Cellar") && same_text(parts[i + 1].as_str(), package) {
            return Some(parts[i + 2].as_str().to_owned());
        }
        i += 1;
    }
    None
}

pub open spec fn required_symbols_spec() -> Seq<Seq<char>> {
    seq![
        "krun_create_ctx"@,
        "krun_free_ctx"@,
        "krun_set_vm_config"@,
        "krun_add_virtiofs3"@,
        "krun_set_exec"@,
        "krun_set_workdir"@,
        "krun_add_disk"@,
        "krun_set_root_disk_remount"@,
        "krun_add_vsock"@,
        "krun_add_vsock_port"@,
        "krun_add_virtio_console_default"@,
        "krun_start_enter"@,
    ]
}

/// The functions that the library has to export.
pub fn required_libkrun_symbols() -> (symbols: Vec<&'static str>)
    ensures
        crate::doctor::discovery::str_views(symbols@) == required_symbols_spec(),
{
    let symbols: Vec<&'static str> =
        vec![
        "krun_create_ctx",
        "krun_free_ctx",
        "krun_set_vm_config",
        "krun_add_virtiofs3",
        "krun_set_exec",
        "krun_set_workdir",
        "krun_add_disk",
        "krun_set_root_disk_remount",
        "krun_add_vsock",
        "krun_add_vsock_port",
        "krun_add_virtio_console_default",
        "krun_start_enter",
    ];
    assert(crate::doctor::discovery::str_views(symbols@) =~= required_symbols_spec());
    symbols
}

/// The symbols that a listing does not name.
pub open spec fn missing_from(listing: Seq<char>, required: Seq<Seq<char>>) -> Seq<Seq<char>> {
    required.filter(|symbol: Seq<char>| !crate::text::occurs_in(listing, symbol))
}

/// Which of the required symbols are there, and which are not; without a listing that is not
/// known, and where nothing is required no listing is needed.
pub open spec fn symbols_spec(required: Seq<Seq<char>>, listing: Option<Seq<char>>) -> (
    Option<bool>,
    Seq<Seq<char>>,
) {
    if required.len() == 0 {
        (Some(true), Seq::empty())
    } else {
        match listing {
            None => (None, Seq::empty()),
            Some(text) => (
                Some(missing_from(text, required).len() == 0),
                missing_from(text, required),
            ),
        }
    }
}

/// Looks for the required symbols in a listing.
pub fn probe_symbols(required: &Vec<&'static str>, listing: &Option<String>) -> (found: (
    Option<bool>,
    Vec<String>,
))
    ensures
        (found.0, crate::text::strings(found.1@)) == symbols_spec(
            crate::doctor::discovery::str_views(required@),
            crate::text::text_of(*listing),
        ),
{
    let mut missing: Vec<String> = Vec::new();
    assert(crate::text::strings(missing@) =~= Seq::empty());
    if required.len() == 0 {
        return (Some(true), missing);
    }
    let text = match listing {
        Some(text) => text,
        None => {
            return (None, missing);
        },
    };
    let ghost names = crate::doctor::discovery::str_views(required@);
    let ghost is_missing = |symbol: Seq<char>| !crate::text::occurs_in(text@, symbol);
    let mut i: usize = 0;
    reveal(Seq::filter);
    assert(names.subrange(0, 0) =~= Seq::empty());
    while i < required.len()
        invariant
            i <= required@.len(),
            names == crate::doctor::discovery::str_views(required@),
            is_missing == (|symbol: Seq<char>| !crate::text::occurs_in(text@, symbol)),
            crate::text::strings(missing@) == names.subrange(0, i as int).filter(is_missing),
        decreases required@.len() - i,
    {
        reveal(Seq::filter);
        let ghost before = missing@;
        assert(names[i as int] == required@[i as int]@);
        assert(names.subrange(0, i + 1).drop_last() =~= names.subrange(0, i as int));
        if !contains_text(text.as_str(), required[i]) {
            missing.push(required[i].to_owned());
            assert(crate::text::strings(missing@) =~= crate::text::strings(before).push(
                names[i as int],
            ));
        }
        i += 1;
    }
    assert(names.subrange(0, i as int) =~= names);
    assert(crate::text::strings(missing@).len() == missing@.len());
    (Some(missing.len() == 0), missing)
}

/// Whether a symbol is in a listing, if there is one.
pub fn library_has_symbol(listing: &Option<String>, symbol: &str) -> (found: Option<bool>)
    ensures
        found == (match crate::text::text_of(*listing) {
            Some(text) => Some(crate::text::occurs_in(text, symbol@)),
            None => None,
        }),
{
    match listing {
        Some(text) => Some(contains_text(text.as_str(), symbol)),
        None => None,
    }
}

/// What was seen of a library.
#[derive(Debug)]
pub struct LibraryFacts {
    pub is_file: bool,
    /// Its exported symbols, as they were listed.
    pub listing: Option<String>,
    pub canonical_path: Option<String>,
    pub architecture: Option<String>,
    pub code_signature_valid: Option<bool>,
}

pub struct LibraryProbeView {
    pub found: bool,
    pub path: Option<Seq<char>>,
    pub required_symbols_present: Option<bool>,
    pub missing_symbols: Seq<Seq<char>>,
    pub version: Option<Seq<char>>,
    pub version_matches: Option<bool>,
    pub architecture: Option<Seq<char>>,
    pub architecture_matches: Option<bool>,
    pub code_signature_valid: Option<bool>,
}

impl View for LibraryProbe {
    type V = LibraryProbeView;

    open spec fn view(&self) -> LibraryProbeView {
        LibraryProbeView {
            found: self.found,
            path: crate::text::text_of(self.path),
            required_symbols_present: self.required_symbols_present,
            missing_symbols: crate::text::strings(self.missing_symbols@),
            version: crate::text::text_of(self.version),
            version_matches: self.version_matches,
            architecture: crate::text::text_of(self.architecture),
            architecture_matches: self.architecture_matches,
            code_signature_valid: self.code_signature_valid,
        }
    }
}

/// What is known of a library: nothing but its path where there is no such file.
pub open spec fn library_probe(
    path: Option<Seq<char>>,
    required: Seq<Seq<char>>,
    package: Seq<char>,
    expected_version: Seq<char>,
    host_architecture: Seq<char>,
    facts: LibraryFacts,
) -> LibraryProbeView {
    if path is None || !facts.is_file {
        LibraryProbeView {
            found: false,
            path,
            required_symbols_present: None,
            missing_symbols: Seq::empty(),
            version: None,
            version_matches: None,
            architecture: None,
            architecture_matches: None,
            code_signature_valid: None,
        }
    } else {
        let symbols = symbols_spec(required, crate::text::text_of(facts.listing));
        let version = version_of(crate::text::text_of(facts.canonical_path), package);
        let architecture = crate::text::text_of(facts.architecture);
        LibraryProbeView {
            found: true,
            path,
            required_symbols_present: symbols.0,
            missing_symbols: symbols.1,
            version,
            version_matches: match version {
                Some(text) => Some(text == expected_version),
                None => None,
            },
            architecture,
            architecture_matches: matching(architecture, host_architecture),
            code_signature_valid: facts.code_signature_valid,
        }
    }
}

/// Puts together what is known of a library.
pub fn probe_library_path(
    path: Option<String>,
    required: &Vec<&'static str>,
    package: &str,
    expected_version: &str,
    host_architecture: &str,
    facts: LibraryFacts,
) -> (probe: LibraryProbe)
    ensures
        probe@ == library_probe(
            crate::text::text_of(path),
            crate::doctor::discovery::str_views(required@),
            package@,
            expected_version@,
            host_architecture@,
            facts,
        ),
{
    if path.is_none() || !facts.is_file {
        let missing_symbols: Vec<String> = Vec::new();
        assert(crate::text::strings(missing_symbols@) =~= Seq::empty());
        return LibraryProbe {
            found: false,
            path,
            required_symbols_present: None,
            missing_symbols,
            version: None,
            version_matches: None,
            architecture: None,
            architecture_matches: None,
            code_signature_valid: None,
        };
    }
    let (required_symbols_present, missing_symbols) = probe_symbols(required, &facts.listing);
    let version = homebrew_version(&facts.canonical_path, package);
    let version_matches: Option<bool> = match &version {
        Some(text) => Some(same_text(text.as_str(), expected_version)),
        None => None,
    };
    let architecture_matches = match_architecture(&facts.architecture, host_architecture);
    LibraryProbe {
        found: true,
        path,
        required_symbols_present,
        missing_symbols,
        version,
        version_matches,
        architecture: facts.architecture,
        architecture_matches,
        code_signature_valid: facts.code_signature_valid,
    }
}

/// Puts together what is known of the machine library.
pub fn probe_libkrun(path: Option<String>, host_architecture: &str, facts: LibraryFacts) -> (probe:
    LibraryProbe)
    ensures
        probe@ == library_probe(
            crate::text::text_of(path),
            required_symbols_spec(),
            "libkrun"@,
            EXPECTED_LIBKRUN_VERSION@,
            host_architecture@,
            facts,
        ),
{
    probe_library_path(
        path,
        &required_libkrun_symbols(),
        "libkrun",
        EXPECTED_LIBKRUN_VERSION,
        host_architecture,
        facts,
    )
}

/// Puts together what is known of the firmware library, of which no symbol is required.
pub fn probe_libkrunfw(path: Option<String>, host_architecture: &str, facts: LibraryFacts) -> (
    probe: LibraryProbe)
    ensures
        probe@ == library_probe(
            crate::text::text_of(path),
            Seq::empty(),
            "libkrunfw"@,
            EXPECTED_LIBKRUNFW_VERSION@,
            host_architecture@,
            facts,
        ),
{
    let none: Vec<&'static str> = Vec::new();
    assert(crate::doctor::discovery::str_views(none@) =~= Seq::empty());
    probe_library_path(path, &none, "libkrunfw", EXPECTED_LIBKRUNFW_VERSION, host_architecture, facts)
}

/// Puts together what is known of a tool: its version counts only where it is a file.
pub fn probe_tool_path(path: Option<String>, is_file: bool, version: Option<String>) -> (probe:
    ToolProbe)
    ensures
        probe.path == path,
        probe.found == (path is Some && is_file),
        probe.version == (if path is Some && is_file {
            version
        } else {
            None
        }),
{
    let found: bool = path.is_some() && is_file;
    let version = if found {
        version
    } else {
        None
    };
    ToolProbe { found, path, version }
}

/// What was seen of a program.
#[derive(Debug)]
pub struct BinaryFacts {
    pub is_file: bool,
    pub is_executable: bool,
    pub architecture: Option<String>,
    pub code_signature_valid: Option<bool>,
}

/// Puts together what is known of a program: nothing but its path where there is no such file.
pub fn probe_native_binary(
    path: Option<String>,
    host_architecture: &str,
    require_executable: bool,
    facts: BinaryFacts,
) -> (probe: NativeBinaryProbe)
    ensures
        probe.path == path,
        probe.regular_file == (path is Some && facts.is_file),
        probe.executable == (if probe.regular_file {
            Some(!require_executable || facts.is_executable)
        } else {
            None
        }),
        probe.architecture == (if probe.regular_file {
            facts.architecture
        } else {
            None
        }),
        probe.architecture_matches == matching(
            crate::text::text_of(probe.architecture),
            host_architecture@,
        ),
        probe.code_signature_valid == (if probe.regular_file {
            facts.code_signature_valid
        } else {
            None
        }),
{
    let regular_file: bool = path.is_some() && facts.is_file;
    if !regular_file {
        return NativeBinaryProbe {
            path,
            regular_file,
            executable: None,
            architecture: None,
            architecture_matches: None,
            code_signature_valid: None,
        };
    }
    let architecture_matches = match_architecture(&facts.architecture, host_architecture);
    NativeBinaryProbe {
        path,
        regular_file,
        executable: Some(!require_executable || facts.is_executable),
        architecture: facts.architecture,
        architecture_matches,
        code_signature_valid: facts.code_signature_valid,
    }
}

/// The nearest of a path and the directories that it lies in that is in a list.
pub open spec fn nearest_in(path: Seq<char>, directories: Seq<Seq<char>>) -> Option<Seq<char>>
    decreases path.len(),
{
    if directories.contains(path) {
        Some(path)
    } else {
        match crate::paths::parent_of(path) {
            Some(above) => if above.len() < path.len() {
                nearest_in(above, directories)
            } else {
                None
            },
            None => None,
        }
    }
}

/// Finds the nearest existing directory of a path; `directories` holds those that exist.
pub fn nearest_existing_directory(path: &str, directories: &Vec<String>) -> (found: Option<String>)
    ensures
        crate::text::text_of(found) == nearest_in(path@, crate::text::strings(directories@)),
{
    let mut current = path.to_owned();
    loop
        invariant
            nearest_in(path@, crate::text::strings(directories@)) == nearest_in(
                current@,
                crate::text::strings(directories@),
            ),
        decreases current@.len(),
    {
        if crate::doctor::discovery::is_listed(directories, current.as_str()) {
            return Some(current);
        }
        match parent(current.as_str()) {
            Some(above) => {
                if above.as_str().unicode_len() < current.as_str().unicode_len() {
                    current = above;
                } else {
                    return None;
                }
            },
            None => {
                return None;
            },
        }
    }
}

/// The parent of a path is shorter than the path, so that the walk upwards ends only at the root
/// or at nothing.
pub proof fn law_parent_is_shorter(path: Seq<char>)
    ensures
        crate::paths::parent_of(path) is Some ==> crate::paths::parent_of(path)->0.len()
            < path.len(),
{
    lemma_trim_is_shorter(path);
    let trimmed = crate::paths::trim_path(path);
    if trimmed.len() > 0 && trimmed != seq!['/'] {
        lemma_trimmed_end(path);
        if trimmed.len() == 1 {
            assert(trimmed[0] != '/') by {
                if trimmed[0] == '/' {
                    assert(trimmed =~= seq!['/']);
                }
            }
        }
        lemma_component_start(trimmed, trimmed.len() as int);
        lemma_trim_is_shorter(
            trimmed.subrange(
                0,
                crate::paths::component_start(trimmed, trimmed.len() as int),
            ),
        );
    }
}

proof fn lemma_trim_is_shorter(path: Seq<char>)
    ensures
        crate::paths::trim_path(path).len() <= path.len(),
    decreases path.len(),
{
    if path.len() > 1 {
        lemma_trim_is_shorter(path.drop_last());
    }
}

proof fn lemma_trimmed_end(path: Seq<char>)
    ensures
        crate::paths::trim_path(path).len() > 1 ==> crate::paths::trim_path(path).last() != '/',
    decreases path.len(),
{
    if path.len() > 1 {
        lemma_trimmed_end(path.drop_last());
    }
}

proof fn lemma_component_start(path: Seq<char>, upto: int)
    requires
        0 < upto <= path.len(),
        path[upto - 1] != '/',
    ensures
        0 <= crate::paths::component_start(path, upto) < upto,
    decreases upto,
{
    assert(crate::paths::component_start(path, upto) == crate::paths::component_start(
        path,
        upto - 1,
    ));
    if upto > 1 && path[upto - 2] != '/' {
        lemma_component_start(path, upto - 1);
    } else {
        assert(crate::paths::component_start(path, upto - 1) == upto - 1);
    }
}

/// How the attempt to clone a file went.
#[derive(Debug)]
pub enum CloneAttempt {
    /// The volume cannot be written to.
    NoDirectory(String),
    NoSource(String),
    NotSupported,
    NotRun(String),
    Ran { success: bool, copied: bool, stderr: Vec<u8> },
}

/// Whether files can be cloned, and what speaks against it.
pub open spec fn clone_verdict(attempt: CloneAttempt) -> (Option<bool>, Option<Seq<char>>) {
    match attempt {
        CloneAttempt::NoDirectory(error) => (
            None,
            Some("cannot write cache volume: "@ + error@),
        ),
        CloneAttempt::NoSource(error) => (
            None,
            Some("cannot create reflink probe file: "@ + error@),
        ),
        CloneAttempt::NotSupported => (
            None,
            Some("reflink probing is unsupported on this host"@),
        ),
        CloneAttempt::NotRun(error) => (
            None,
            Some("failed to execute reflink probe: "@ + error@),
        ),
        CloneAttempt::Ran { success, copied, stderr } => if success && copied {
            (Some(true), None)
        } else {
            (Some(false), Some(crate::text::trim_of(crate::text::lossy_text(stderr@))))
        },
    }
}

/// Judges the attempt to clone a file.
pub fn probe_cow_clone(attempt: CloneAttempt) -> (verdict: (Option<bool>, Option<String>))
    ensures
        (verdict.0, crate::text::text_of(verdict.1)) == clone_verdict(attempt),
{
    match attempt {
        CloneAttempt::NoDirectory(error) => (
            None,
            Some(join("cannot write cache volume: ", error.as_str())),
        ),
        CloneAttempt::NoSource(error) => (
            None,
            Some(join("cannot create reflink probe file: ", error.as_str())),
        ),
        CloneAttempt::NotSupported => (
            None,
            Some("reflink probing is unsupported on this host".to_owned()),
        ),
        CloneAttempt::NotRun(error) => (
            None,
            Some(join("failed to execute reflink probe: ", error.as_str())),
        ),
        CloneAttempt::Ran { success, copied, stderr } => {
            if success && copied {
                (Some(true), None)
            } else {
                let written = from_utf8_lossy(stderr.as_slice());
                (Some(false), Some(trim(written.as_str())))
            }
        },
    }
}

/// What was seen of the volume of the cache.
#[derive(Debug)]
pub struct VolumeFacts {
    /// The directory that was looked at.
    pub path: String,
    pub available_bytes: Option<u64>,
    pub total_bytes: Option<u64>,
    pub clone: CloneAttempt,
}

/// Puts together what is known of the cache's volume; `facts` is missing where no directory above
/// the cache exists.
pub fn probe_cache_volume(configured_path: String, facts: Option<VolumeFacts>) -> (probe:
    CacheVolumeProbe)
    ensures
        probe.configured_path == configured_path,
        probe.minimum_recommended_free_bytes == MIN_RECOMMENDED_CACHE_FREE_BYTES,
        probe.free_space_sufficient == (match probe.available_bytes {
            Some(bytes) => Some(bytes >= MIN_RECOMMENDED_CACHE_FREE_BYTES),
            None => None,
        }),
        match facts {
            None => {
                &&& probe.probe_path is None
                &&& probe.available_bytes is None
                &&& probe.total_bytes is None
                &&& probe.reflink_supported is None
                &&& crate::text::text_of(probe.free_space_error) == Some(
                    "no existing cache path ancestor was found"@,
                )
                &&& crate::text::text_of(probe.reflink_error) == Some(
                    "no writable cache volume probe path is available"@,
                )
            },
            Some(seen) => {
                &&& probe.probe_path == Some(seen.path)
                &&& probe.available_bytes == seen.available_bytes
                &&& probe.total_bytes == seen.total_bytes
                &&& crate::text::text_of(probe.free_space_error) == (
                if seen.available_bytes is Some && seen.total_bytes is Some {
                    None
                } else {
                    Some("failed to query cache volume capacity"@)
                })
                &&& (probe.reflink_supported, crate::text::text_of(probe.reflink_error))
                    == clone_verdict(seen.clone)
            },
        },
{
    match facts {
        None => CacheVolumeProbe {
            configured_path,
            probe_path: None,
            available_bytes: None,
            total_bytes: None,
            minimum_recommended_free_bytes: MIN_RECOMMENDED_CACHE_FREE_BYTES,
            free_space_sufficient: None,
            reflink_supported: None,
            free_space_error: Some("no existing cache path ancestor was found".to_owned()),
            reflink_error: Some("no writable cache volume probe path is available".to_owned()),
        },
        Some(seen) => {
            let free_space_error: Option<String> = if seen.available_bytes.is_some()
                && seen.total_bytes.is_some() {
                None
            } else {
                Some("failed to query cache volume capacity".to_owned())
            };
            let free_space_sufficient: Option<bool> = match seen.available_bytes {
                Some(bytes) => Some(bytes >= MIN_RECOMMENDED_CACHE_FREE_BYTES),
                None => None,
            };
            let (reflink_supported, reflink_error) = probe_cow_clone(seen.clone);
            CacheVolumeProbe {
                configured_path,
                probe_path: Some(seen.path),
                available_bytes: seen.available_bytes,
                total_bytes: seen.total_bytes,
                minimum_recommended_free_bytes: MIN_RECOMMENDED_CACHE_FREE_BYTES,
                free_space_sufficient,
                reflink_supported,
                free_space_error,
                reflink_error,
            }
        },
    }
}

/// Whether a probe can be made at all: only of a proxy that is there and can be executed.
pub fn network_needs_socket(tool: &ToolProbe, executable: bool) -> (needed: bool)
    ensures
        needed == (tool.path is Some && tool.found && executable),
{
    tool.path.is_some() && tool.found && executable
}

/// Puts together what is known of the network; `socket` is missing where there was no directory
/// for a socket.
pub fn probe_network(
    tool: &ToolProbe,
    executable: bool,
    architecture: Option<String>,
    host_architecture: &str,
    socket: Option<(Option<bool>, Option<String>)>,
) -> (probe: NetworkProbe)
    ensures
        if tool.path is None || !tool.found {
            &&& !probe.helper_executable
            &&& probe.helper_architecture is None
            &&& probe.helper_architecture_matches is None
            &&& probe.socket_created is None
            &&& crate::text::text_of(probe.error) == Some("gvproxy was not found"@)
        } else {
            &&& probe.helper_executable == executable
            &&& probe.helper_architecture == architecture
            &&& probe.helper_architecture_matches == matching(
                crate::text::text_of(architecture),
                host_architecture@,
            )
            &&& if !executable {
                &&& probe.socket_created is None
                &&& crate::text::text_of(probe.error) == Some("gvproxy is not executable"@)
            } else {
                match socket {
                    Some(seen) => probe.socket_created == seen.0 && probe.error == seen.1,
                    None => probe.socket_created is None && crate::text::text_of(probe.error)
                        == Some("no cache volume path is available for a socket probe"@),
                }
            }
        },
{
    if tool.path.is_none() || !tool.found {
        return NetworkProbe {
            helper_executable: false,
            helper_architecture: None,
            helper_architecture_matches: None,
            socket_created: None,
            error: Some("gvproxy was not found".to_owned()),
        };
    }
    let helper_architecture_matches = match_architecture(&architecture, host_architecture);
    let (socket_created, error) = if !executable {
        (None, Some("gvproxy is not executable".to_owned()))
    } else {
        match socket {
            Some(seen) => seen,
            None => (
                None,
                Some("no cache volume path is available for a socket probe".to_owned()),
            ),
        }
    };
    NetworkProbe {
        helper_executable: executable,
        helper_architecture: architecture,
        helper_architecture_matches,
        socket_created,
        error,
    }
}

/// The address of the socket of a probe; a path that is too long has none.
pub fn probe_socket_uri(path: &str) -> (uri: Option<String>)
    ensures
        crate::text::text_of(uri) == (if path.spec_bytes().len() >= SOCKET_PATH_LIMIT {
            None
        } else {
            Some("unixgram://"@ + path@)
        }),
{
    if path.as_bytes().len() >= SOCKET_PATH_LIMIT {
        None
    } else {
        Some(join("unixgram://", path))
    }
}

/// What became of a proxy that is being probed.
#[derive(Debug)]
pub enum ChildState {
    Running,
    Exited(String),
    Unknown(String),
}

/// One look at a proxy that is being probed.
#[derive(Debug)]
pub struct SocketPoll {
    pub path_exists: bool,
    pub path_is_socket: bool,
    /// Why the endpoint cannot be reached, if it cannot.
    pub probe_error: Option<String>,
    pub child: ChildState,
    pub elapsed: Duration,
}

/// Whether a look settles the probe, and how.
pub open spec fn poll_verdict(poll: SocketPoll) -> Option<(Option<bool>, Option<Seq<char>>)> {
    if poll.path_exists && !poll.path_is_socket {
        Some((Some(false), Some("gvproxy created a non-socket path"@)))
    } else {
        match poll.probe_error {
            None => Some((Some(true), None)),
            Some(error) => match poll.child {
                ChildState::Exited(status) => Some(
                    (Some(false), Some("gvproxy exited before socket readiness: "@ + status@)),
                ),
                ChildState::Unknown(reason) => Some(
                    (None, Some("cannot inspect gvproxy: "@ + reason@)),
                ),
                ChildState::Running => if poll.elapsed@ >= NETWORK_SOCKET_TIMEOUT_SECS
                    * crate::time::NANOS_PER_SEC {
                    Some(
                        (
                            Some(false),
                            Some(
                                "gvproxy socket was not connectable within 5s; last socket error: "@
                                    + error@,
                            ),
                        ),
                    )
                } else {
                    None
                },
            },
        }
    }
}

/// Judges one look at a proxy; without a verdict the probe goes on.
pub fn wait_for_network_socket(poll: SocketPoll) -> (verdict: Option<
    (Option<bool>, Option<String>),
>)
    ensures
        match (verdict, poll_verdict(poll)) {
            (None, None) => true,
            (Some(given), Some(expected)) => (given.0, crate::text::text_of(given.1)) == expected,
            _ => false,
        },
{
    if poll.path_exists && !poll.path_is_socket {
        return Some((Some(false), Some("gvproxy created a non-socket path".to_owned())));
    }
    let error = match poll.probe_error {
        None => {
            return Some((Some(true), None));
        },
        Some(error) => error,
    };
    match poll.child {
        ChildState::Exited(status) => Some(
            (
                Some(false),
                Some(join("gvproxy exited before socket readiness: ", status.as_str())),
            ),
        ),
        ChildState::Unknown(reason) => Some(
            (None, Some(join("cannot inspect gvproxy: ", reason.as_str()))),
        ),
        ChildState::Running => {
            let limit = Duration::from_secs(NETWORK_SOCKET_TIMEOUT_SECS);
            if limit.exceeds(&poll.elapsed) {
                None
            } else {
                Some(
                    (
                        Some(false),
                        Some(
                            join(
                                "gvproxy socket was not connectable within 5s; last socket error: ",
                                error.as_str(),
                            ),
                        ),
                    ),
                )
            }
        },
    }
}

/// The verdict of a probe with what the proxy wrote behind its error.
pub fn with_stderr_diagnostics(result: (Option<bool>, Option<String>), stderr: &[u8]) -> (extended:
    (Option<bool>, Option<String>))
    ensures
        extended.0 == result.0,
        crate::text::text_of(extended.1) == (if result.0 == Some(true) || stderr@.len() == 0 {
            crate::text::text_of(result.1)
        } else {
            Some(
                crate::doctor::discovery::or_command(
                    crate::text::text_of(result.1),
                    "gvproxy probe failed"@,
                ) + crate::libkrun::network::diagnostics_text(stderr@),
            )
        }),
{
    let (ready, error) = result;
    if ready == Some(true) || stderr.len() == 0 {
        return (ready, error);
    }
    let suffix = stderr_diagnostics(stderr);
    let base = match error {
        Some(text) => text,
        None => "gvproxy probe failed".to_owned(),
    };
    (ready, Some(join(base.as_str(), suffix.as_str())))
}

} // verus!
