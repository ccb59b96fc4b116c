//! What can be relied on of the report on a host: what passes and what does not, where the parts of
//! the runtime are looked for, and what the probes make of what they see.

use vstd::prelude::*;

use crate::doctor::discovery::{
    disk_tools, first_file, library_parents, runtime_paths, search_path_of,
    variable_from, HostView,
};
use crate::doctor::probe::{
    accepted_output, cellar_version, clone_verdict, library_probe, listed_architecture, matching,
    missing_from, nearest_in, poll_verdict, symbols_spec, CloneAttempt, LibraryFacts,
    LibraryProbe, NativeBinaryProbe, SocketPoll,
};
use crate::doctor::{
    backend_ready, bytes_text, checks_of, helper_issues, library_issues, network_ready,
    runtime_issues, state_text, status_of, warnings_of, CheckView, DoctorCheckStatus, HostProbes,
};

verus! {

/// A check passes exactly where everything it rests on is known to be right, and fails exactly
/// where something is known to be wrong; it warns of what is unknown.
pub proof fn law_checks_pass_on_what_is_right(values: Seq<Option<bool>>)
    ensures
        status_of(values) == DoctorCheckStatus::Pass <==> forall|i: int|
            0 <= i < values.len() ==> #[trigger] values[i] == Some(true),
        status_of(values) == DoctorCheckStatus::Fail <==> exists|i: int|
            0 <= i < values.len() && #[trigger] values[i] == Some(false),
        status_of(values) == DoctorCheckStatus::Warn ==> exists|i: int|
            0 <= i < values.len() && (#[trigger] values[i]) is None,
{
    if status_of(values) == DoctorCheckStatus::Pass {
        assert forall|i: int| 0 <= i < values.len() implies #[trigger] values[i] == Some(true) by {
            assert(values.contains(values[i]));
        }
    } else if status_of(values) == DoctorCheckStatus::Fail {
        let i = choose|i: int| 0 <= i < values.len() && values[i] == Some(false);
        assert(values[i] == Some(false));
    } else {
        let i = choose|i: int| 0 <= i < values.len() && values[i] == None::<bool>;
        assert(values[i] is None);
    }
    assert forall|i: int| 0 <= i < values.len() && values[i] == Some(false) implies values.contains(
        Some(false),
    ) by {}
}

/// Whether a library is all that a machine needs of it.
pub open spec fn is_sound_library(probe: LibraryProbe) -> bool {
    &&& probe.found
    &&& probe.required_symbols_present == Some(true)
    &&& probe.version_matches == Some(true)
    &&& probe.architecture_matches == Some(true)
    &&& probe.code_signature_valid == Some(true)
}

/// Whether a helper can start machines.
pub open spec fn is_sound_helper(probe: NativeBinaryProbe, entitled: bool) -> bool {
    &&& probe.regular_file
    &&& probe.executable == Some(true)
    &&& probe.architecture_matches == Some(true)
    &&& probe.code_signature_valid == Some(true)
    &&& entitled
}

/// Nothing is wrong with a runtime exactly where the host is supported and the helper and both
/// libraries are known to be sound, and, for a network, the library is known to offer one.
pub proof fn law_sound_runtimes_have_no_issues(
    host_supported: bool,
    helper: NativeBinaryProbe,
    entitled: bool,
    libkrun: LibraryProbe,
    libkrunfw: LibraryProbe,
    require_network_api: bool,
    network_api: Option<bool>,
)
    ensures
        runtime_issues(
            host_supported,
            helper,
            entitled,
            libkrun,
            libkrunfw,
            require_network_api,
            network_api,
        ).len() == 0 <==> {
            &&& host_supported
            &&& is_sound_helper(helper, entitled)
            &&& is_sound_library(libkrun)
            &&& is_sound_library(libkrunfw)
            &&& require_network_api ==> network_api == Some(true)
        },
        helper_issues(helper, entitled).len() == 0 <==> is_sound_helper(helper, entitled),
        library_issues("libkrun"@, libkrun, "1.19.4"@).len() == 0 <==> is_sound_library(libkrun),
{
}

/// A host is ready for machines exactly where it is an Apple Silicon macOS with the Hypervisor
/// framework, a sound runtime, all disk tools and a cache on which files can be cloned.
pub proof fn law_hosts_are_ready_with_everything(probes: HostProbes)
    ensures
        backend_ready(probes) <==> {
            &&& probes.os@ == "macos"@ && probes.architecture@ == "aarch64"@
            &&& is_sound_helper(probes.helper, probes.hypervisor_entitlement)
            &&& is_sound_library(probes.libkrun)
            &&& is_sound_library(probes.libkrunfw)
            &&& probes.hypervisor_framework
            &&& probes.mke2fs.found && probes.e2fsck.found && probes.debugfs.found
            &&& probes.cache_volume.reflink_supported == Some(true)
        },
        network_ready(probes) <==> {
            &&& backend_ready(probes)
            &&& probes.gvproxy.found
            &&& probes.network.helper_executable
            &&& probes.network.helper_architecture_matches == Some(true)
            &&& probes.network.socket_created == Some(true)
            &&& probes.libkrun_network_api == Some(true)
        },
{
}

/// Each check stands for its part of the host: it passes exactly where that part is known to be
/// right.
pub proof fn law_checks_stand_for_their_part(probes: HostProbes)
    ensures
        checks_of(probes).len() == 9,
        ({
            let checks = checks_of(probes);
            let pass = DoctorCheckStatus::Pass;
            let cache = probes.cache_volume;
            let network = probes.network;
            &&& checks[0].id == "cache_reflink"@
            &&& checks[0].status == pass <==> cache.reflink_supported == Some(true)
            &&& checks[1].id == "cache_free_space"@
            &&& checks[1].status == pass <==> cache.free_space_sufficient == Some(true)
            &&& checks[2].id == "network_helper"@
            &&& checks[2].status == pass <==> network.helper_executable
                && network.helper_architecture_matches == Some(true)
            &&& checks[3].id == "network_socket"@
            &&& checks[3].status == pass <==> network.socket_created == Some(true)
            &&& checks[4].id == "helper_signing"@
            &&& checks[4].status == pass <==> is_sound_helper(
                probes.helper,
                probes.hypervisor_entitlement,
            )
            &&& checks[5].id == "libkrun_abi"@
            &&& checks[5].status == pass <==> is_sound_library(probes.libkrun)
            &&& checks[6].id == "libkrunfw_abi"@
            &&& checks[6].status == pass <==> is_sound_library(probes.libkrunfw)
            &&& checks[7].id == "network_abi"@
            &&& checks[7].status == pass <==> probes.libkrun_network_api == Some(true)
            &&& checks[8].id == "disk_tools"@
            &&& checks[8].status == pass <==> probes.mke2fs.found && probes.e2fsck.found
                && probes.debugfs.found
        }),
{
    let cache = probes.cache_volume;
    let network = probes.network;
    lemma_one(cache.reflink_supported);
    lemma_one(cache.free_space_sufficient);
    lemma_one(network.socket_created);
    lemma_one(probes.libkrun_network_api);
    lemma_two(Some(network.helper_executable), network.helper_architecture_matches);
    let helper = probes.helper;
    lemma_five(
        Some(helper.regular_file),
        helper.executable,
        helper.architecture_matches,
        helper.code_signature_valid,
        Some(probes.hypervisor_entitlement),
    );
    let libkrun = probes.libkrun;
    lemma_five(
        Some(libkrun.found),
        libkrun.required_symbols_present,
        libkrun.version_matches,
        libkrun.architecture_matches,
        libkrun.code_signature_valid,
    );
    let firmware = probes.libkrunfw;
    lemma_five(
        Some(firmware.found),
        firmware.required_symbols_present,
        firmware.version_matches,
        firmware.architecture_matches,
        firmware.code_signature_valid,
    );
    lemma_three(
        Some(probes.mke2fs.found),
        Some(probes.e2fsck.found),
        Some(probes.debugfs.found),
    );
}

proof fn lemma_one(first: Option<bool>)
    ensures
        status_of(seq![first]) == DoctorCheckStatus::Pass <==> first == Some(true),
{
    let values = seq![first];
    law_checks_pass_on_what_is_right(values);
    assert(values[0] == first);
}

proof fn lemma_two(first: Option<bool>, second: Option<bool>)
    ensures
        status_of(seq![first, second]) == DoctorCheckStatus::Pass <==> first == Some(true)
            && second == Some(true),
{
    let values = seq![first, second];
    law_checks_pass_on_what_is_right(values);
    assert(values[0] == first && values[1] == second);
}

proof fn lemma_three(first: Option<bool>, second: Option<bool>, third: Option<bool>)
    ensures
        status_of(seq![first, second, third]) == DoctorCheckStatus::Pass <==> first == Some(true)
            && second == Some(true) && third == Some(true),
{
    let values = seq![first, second, third];
    law_checks_pass_on_what_is_right(values);
    assert(values[0] == first && values[1] == second && values[2] == third);
}

proof fn lemma_five(
    first: Option<bool>,
    second: Option<bool>,
    third: Option<bool>,
    fourth: Option<bool>,
    fifth: Option<bool>,
)
    ensures
        status_of(seq![first, second, third, fourth, fifth]) == DoctorCheckStatus::Pass <==> first
            == Some(true) && second == Some(true) && third == Some(true) && fourth == Some(true)
            && fifth == Some(true),
{
    let values = seq![first, second, third, fourth, fifth];
    law_checks_pass_on_what_is_right(values);
    assert(values[0] == first && values[1] == second && values[2] == third);
    assert(values[3] == fourth && values[4] == fifth);
}

/// Every check that does not pass is warned of, with what it found and what to do, and no other
/// is: there are as many warnings as such checks.
pub proof fn law_what_does_not_pass_is_warned_of(checks: Seq<CheckView>, index: int)
    requires
        0 <= index < checks.len(),
        checks[index].status != DoctorCheckStatus::Pass,
        checks[index].remediation is Some,
    ensures
        warnings_of(checks).contains(
            checks[index].id + ": "@ + checks[index].summary + "; remediation: "@
                + checks[index].remediation->0,
        ),
    decreases checks.len(),
{
    let last = checks.len() - 1;
    let text = checks[index].id + ": "@ + checks[index].summary + "; remediation: "@
        + checks[index].remediation->0;
    let warnings = warnings_of(checks);
    if index == last {
        assert(warnings[warnings.len() - 1] == text);
    } else {
        assert(checks.drop_last()[index] == checks[index]);
        law_what_does_not_pass_is_warned_of(checks.drop_last(), index);
        let earlier = warnings_of(checks.drop_last());
        let i = choose|i: int| 0 <= i < earlier.len() && earlier[i] == text;
        assert(warnings[i] == text);
    }
}

/// There are as many warnings as checks that do not pass.
pub proof fn law_nothing_else_is_warned_of(checks: Seq<CheckView>)
    ensures
        warnings_of(checks).len() == checks.filter(
            |check: CheckView| check.status != DoctorCheckStatus::Pass,
        ).len(),
    decreases checks.len(),
{
    reveal(Seq::filter);
    if checks.len() > 0 {
        law_nothing_else_is_warned_of(checks.drop_last());
    }
}

/// A number of bytes from one GiB on is told in tenths of a GiB, as many as are full; less than
/// that is told byte by byte.
pub proof fn law_bytes_are_told_in_tenths(bytes: u64, whole: nat, tenth: nat)
    requires
        tenth < 10,
        (10 * whole + tenth) * 1_073_741_824 <= 10 * bytes,
        10 * bytes < (10 * whole + tenth + 1) * 1_073_741_824,
    ensures
        whole > 0 ==> bytes_text(bytes) == crate::text::decimal_text(whole) + "."@
            + crate::text::decimal_text(tenth) + " GiB"@,
        whole == 0 ==> bytes_text(bytes) == crate::text::decimal_text(bytes as nat) + " bytes"@,
{
    if whole > 0 {
        assert(bytes / 1_073_741_824 == whole);
        assert((bytes % 1_073_741_824) * 10 / 1_073_741_824int == tenth);
    }
}

/// What is looked for in several places is taken from the first place that has it.
pub proof fn law_first_place_wins(
    candidates: Seq<Seq<char>>,
    files: Seq<Seq<char>>,
    from: int,
    at: int,
)
    requires
        0 <= from <= at < candidates.len(),
        files.contains(candidates[at]),
        forall|i: int| from <= i < at ==> !files.contains(#[trigger] candidates[i]),
    ensures
        first_file(candidates, files, from) == Some(candidates[at]),
    decreases at - from,
{
    if from < at {
        assert(!files.contains(candidates[from]));
        law_first_place_wins(candidates, files, from + 1, at);
    }
}

/// What no place has is not found.
pub proof fn law_missing_files_are_not_found(
    candidates: Seq<Seq<char>>,
    files: Seq<Seq<char>>,
    from: int,
)
    requires
        0 <= from,
        forall|i: int| from <= i < candidates.len() ==> !files.contains(#[trigger] candidates[i]),
    ensures
        first_file(candidates, files, from) is None,
    decreases candidates.len() - from,
{
    if from < candidates.len() {
        assert(!files.contains(candidates[from]));
        law_missing_files_are_not_found(candidates, files, from + 1);
    }
}

/// A variable has the value that stands first beside its name, and none where its name is missing.
pub proof fn law_variables_have_their_value(
    environment: Seq<(Seq<char>, Seq<char>)>,
    key: Seq<char>,
    from: int,
    at: int,
)
    requires
        0 <= from <= at <= environment.len(),
        forall|i: int| from <= i < at ==> (#[trigger] environment[i]).0 != key,
        at < environment.len() ==> environment[at].0 == key,
    ensures
        variable_from(environment, key, from) == (if at < environment.len() {
            Some(environment[at].1)
        } else {
            None
        }),
    decreases at - from,
{
    if from < at {
        assert(environment[from].0 != key);
        law_variables_have_their_value(environment, key, from + 1, at);
    }
}

/// A tool is the one that the caller names, or else the one that its variable names, or else the
/// one on the search path, or else an installed one.
pub proof fn law_tools_are_looked_for_in_order(
    host: HostView,
    explicit: Option<Seq<char>>,
    key: Seq<char>,
    name: Seq<char>,
    candidates: Seq<Seq<char>>,
)
    ensures
        explicit is Some ==> host.tool(explicit, key, name, candidates) == explicit,
        explicit is None && host.variable(key) is Some ==> host.tool(
            explicit,
            key,
            name,
            candidates,
        ) == host.variable(key),
        explicit is None && host.variable(key) is None && host.program(name) is Some ==> host.tool(
            explicit,
            key,
            name,
            candidates,
        ) == host.program(name),
        explicit is None && host.variable(key) is None && host.program(name) is None ==> host.tool(
            explicit,
            key,
            name,
            candidates,
        ) == host.candidate(candidates),
{
}

/// What a variable names is used wherever the caller names nothing: each part has a variable of
/// its own.
pub proof fn law_each_part_has_its_variable(host: HostView, path: Seq<char>)
    ensures
        host.variable("MORAE_HELPER_PATH"@) == Some(path) ==> runtime_paths(
            None,
            None,
            None,
            None,
            host,
        ).helper == Some(path),
        host.variable("MORAE_LIBKRUN_PATH"@) == Some(path) ==> runtime_paths(
            None,
            None,
            None,
            None,
            host,
        ).libkrun == Some(path),
        host.variable("MORAE_LIBKRUNFW_PATH"@) == Some(path) ==> runtime_paths(
            None,
            None,
            None,
            None,
            host,
        ).libkrunfw == Some(path),
        host.variable("MORAE_GVPROXY_PATH"@) == Some(path) ==> runtime_paths(
            None,
            None,
            None,
            None,
            host,
        ).gvproxy == Some(path),
        host.variable("MORAE_LIB_DIR"@) == Some(path) ==> runtime_paths(
            None,
            None,
            None,
            None,
            host,
        ).library_search_path == Some(path),
        host.variable("MORAE_MKE2FS"@) == Some(path) ==> disk_tools(None, None, None, host).mke2fs
            == Some(path),
        host.variable("MORAE_E2FSCK"@) == Some(path) ==> disk_tools(None, None, None, host).e2fsck
            == Some(path),
        host.variable("MORAE_DEBUGFS"@) == Some(path) ==> disk_tools(
            None,
            None,
            None,
            host,
        ).debugfs == Some(path),
{
}

/// A firmware that lies beside the library is preferred to an installed one, whatever path the
/// library has.
pub proof fn law_firmware_beside_the_library_wins(
    host: HostView,
    libkrun: Seq<char>,
    directory: Seq<char>,
)
    requires
        host.variable("MORAE_LIBKRUNFW_PATH"@) is None,
        crate::paths::parent_of(libkrun) == Some(directory),
        host.files.contains(crate::paths::join_of(directory, "libkrunfw.dylib"@)),
    ensures
        runtime_paths(None, Some(libkrun), None, None, host).libkrunfw == Some(
            crate::paths::join_of(directory, "libkrunfw.dylib"@),
        ),
{
}

/// Libraries are searched for in the directories that hold them, in one only once; a directory
/// whose name holds the separator cannot be searched.
pub proof fn law_libraries_are_searched_for_where_they_lie(first: Seq<char>, second: Seq<char>)
    requires
        !crate::text::occurs_in(first, ":"@),
        !crate::text::occurs_in(second, ":"@),
    ensures
        search_path_of(seq![first]) == Some(first),
        search_path_of(seq![first, second]) == Some(first + ":"@ + second),
        search_path_of(Seq::empty()) is None,
{
    reveal_with_fuel(crate::text::joined_by, 3);
    let one = seq![first];
    let two = seq![first, second];
    assert(one.drop_last() =~= Seq::<Seq<char>>::empty());
    assert(two.drop_last() =~= one);
    assert(one.drop_first() =~= Seq::<Seq<char>>::empty());
    assert(two.drop_first() =~= seq![second]);
    assert(crate::text::joined_by(one, ":"@) =~= first);
    assert(crate::text::joined_by(two, ":"@) =~= first + ":"@ + second);
}

/// The parents of two libraries are those that are known, and one of them where both lie in one
/// directory.
pub proof fn law_library_parents_are_those_known(first: Seq<char>, second: Seq<char>)
    ensures
        library_parents(None, None).len() == 0,
        crate::paths::parent_of(first) matches Some(directory) ==> {
            &&& library_parents(Some(first), None) == seq![directory]
            &&& library_parents(None, Some(first)) == seq![directory]
            &&& library_parents(Some(first), Some(first)).contains(directory)
        },
        crate::paths::parent_of(first) is Some && crate::paths::parent_of(second) is Some
            && !crate::paths::same_path_spec(
            crate::paths::parent_of(first)->0,
            crate::paths::parent_of(second)->0,
        ) ==> library_parents(Some(first), Some(second)) == seq![
            crate::paths::parent_of(first)->0,
            crate::paths::parent_of(second)->0,
        ],
{
    match crate::paths::parent_of(first) {
        Some(directory) => {
            assert(library_parents(Some(first), Some(first))[0] == directory);
        },
        None => {},
    }
}

/// The version of a package stands behind its name in the cellar, and is that of no other package.
pub proof fn law_versions_stand_behind_their_package(
    parts: Seq<Seq<char>>,
    package: Seq<char>,
    from: int,
    at: int,
)
    requires
        0 <= from <= at,
        at + 2 < parts.len(),
        parts[at] == "Cellar"@,
        parts[at + 1] == package,
        forall|i: int|
            from <= i < at ==> !(#[trigger] parts[i] == "Cellar"@ && parts[i + 1] == package),
    ensures
        cellar_version(parts, package, from) == Some(parts[at + 2]),
    decreases at - from,
{
    if from < at {
        assert(!(parts[from] == "Cellar"@ && parts[from + 1] == package));
        law_versions_stand_behind_their_package(parts, package, from + 1, at);
    }
}

/// A library has its symbols exactly where each of them occurs in its listing; those that do not
/// are named, in their order, and without a listing nothing is known.
pub proof fn law_missing_symbols_are_named(
    required: Seq<Seq<char>>,
    listing: Seq<char>,
    symbol: Seq<char>,
)
    requires
        required.len() > 0,
    ensures
        symbols_spec(required, None).0 is None,
        symbols_spec(required, Some(listing)).0 == Some(true) <==> forall|i: int|
            0 <= i < required.len() ==> crate::text::occurs_in(listing, #[trigger] required[i]),
        symbols_spec(required, Some(listing)).0 is Some,
        symbols_spec(required, Some(listing)).1.contains(symbol) <==> required.contains(symbol)
            && !crate::text::occurs_in(listing, symbol),
{
    let missing = |symbol: Seq<char>| !crate::text::occurs_in(listing, symbol);
    let named = missing_from(listing, required);
    assert(named == required.filter(missing));
    assert forall|wanted: Seq<char>| named.contains(wanted) <==> required.contains(wanted)
        && !crate::text::occurs_in(listing, wanted) by {
        if named.contains(wanted) {
            let i = choose|i: int| 0 <= i < named.len() && named[i] == wanted;
            required.lemma_filter_pred(missing, i);
            required.lemma_filter_contains_rev(missing, wanted);
        }
        if required.contains(wanted) && !crate::text::occurs_in(listing, wanted) {
            let i = choose|i: int| 0 <= i < required.len() && required[i] == wanted;
            required.lemma_filter_contains(missing, i);
        }
    }
    if named.len() == 0 {
        assert forall|i: int| 0 <= i < required.len() implies crate::text::occurs_in(
            listing,
            #[trigger] required[i],
        ) by {
            assert(required.contains(required[i]));
            if !crate::text::occurs_in(listing, required[i]) {
                assert(named.contains(required[i]));
            }
        }
    } else {
        assert(named.contains(named[0]));
        assert(required.contains(named[0]));
    }
}

/// Where nothing is required of a library, nothing is missing.
pub proof fn law_nothing_required_is_present(listing: Option<Seq<char>>)
    ensures
        symbols_spec(Seq::empty(), listing) == (Some(true), Seq::<Seq<char>>::empty()),
{
}

/// Of a library that is no file nothing is known; of one that is, its version is right exactly
/// where it is the expected one, and its architecture exactly where the host's is listed.
pub proof fn law_libraries_are_judged_by_their_file(
    path: Seq<char>,
    required: Seq<Seq<char>>,
    package: Seq<char>,
    expected: Seq<char>,
    architecture: Seq<char>,
    facts: LibraryFacts,
)
    ensures
        ({
            let probe = library_probe(
                Some(path),
                required,
                package,
                expected,
                architecture,
                facts,
            );
            &&& probe.found == facts.is_file
            &&& probe.path == Some(path)
            &&& !facts.is_file ==> {
                &&& probe.required_symbols_present is None
                &&& probe.version is None && probe.version_matches is None
                &&& probe.architecture_matches is None
                &&& probe.code_signature_valid is None
            }
            &&& facts.is_file ==> {
                &&& probe.code_signature_valid == facts.code_signature_valid
                &&& probe.version_matches == Some(true) <==> probe.version == Some(expected)
                &&& probe.version_matches is None <==> probe.version is None
                &&& probe.architecture_matches == Some(true) ==> facts.architecture is Some
            }
        }),
        !library_probe(None, required, package, expected, architecture, facts).found,
{
}

/// The architecture of an Apple Silicon host is listed under its other name, and every other under
/// its own; nothing is known without a listing.
pub proof fn law_architectures_are_listed_by_name(actual: Seq<char>, expected: Seq<char>)
    ensures
        matching(None, expected) is None,
        matching(Some(actual), "aarch64"@) == Some(crate::text::has_word(actual, "arm64"@, 0)),
        expected != "aarch64"@ ==> matching(Some(actual), expected) == Some(
            crate::text::has_word(actual, expected, 0),
        ),
        expected != "aarch64"@ ==> listed_architecture(expected) == expected,
{
}

/// What a program wrote counts only where the program succeeded and wrote something, and then
/// without white space at its ends.
pub proof fn law_output_of_failed_programs_is_ignored(stdout: Seq<u8>)
    ensures
        accepted_output(false, stdout) is None,
        accepted_output(true, stdout) matches Some(text) ==> text.len() > 0 && text
            == crate::text::trim_of(crate::text::lossy_text(stdout)),
        accepted_output(true, stdout) is None ==> crate::text::trim_of(
            crate::text::lossy_text(stdout),
        ).len() == 0,
{
}

/// The nearest directory is the path itself where it exists, and else the nearest of its parent.
pub proof fn law_nearest_directory_is_found_upwards(
    path: Seq<char>,
    above: Seq<char>,
    directories: Seq<Seq<char>>,
)
    ensures
        directories.contains(path) ==> nearest_in(path, directories) == Some(path),
        !directories.contains(path) && crate::paths::parent_of(path) == Some(above) ==> nearest_in(
            path,
            directories,
        ) == nearest_in(above, directories),
        nearest_in(path, directories) matches Some(found) ==> directories.contains(found),
    decreases path.len(),
{
    crate::doctor::probe::law_parent_is_shorter(path);
    if !directories.contains(path) {
        match crate::paths::parent_of(path) {
            Some(parent) => {
                law_nearest_directory_is_found_upwards(parent, above, directories);
            },
            None => {},
        }
    }
}

/// Files can be cloned exactly where a clone was made and is there; that they cannot is known only
/// where it was tried.
pub proof fn law_clones_are_judged_by_the_attempt(attempt: CloneAttempt)
    ensures
        clone_verdict(attempt).0 == Some(true) <==> attempt is Ran && attempt->success
            && attempt->copied,
        clone_verdict(attempt).0 is None <==> !(attempt is Ran),
        clone_verdict(attempt).1 is None <==> clone_verdict(attempt).0 == Some(true),
{
}

/// A probed proxy is ready exactly where its endpoint is reached and is a socket, if it can be
/// seen; it is looked at again only while it runs and its time is not over.
pub proof fn law_probed_proxies_are_judged(poll: SocketPoll)
    ensures
        poll_verdict(poll) is None <==> {
            &&& poll.path_exists ==> poll.path_is_socket
            &&& poll.probe_error is Some
            &&& poll.child is Running
            &&& poll.elapsed@ < 5_000_000_000
        },
        poll_verdict(poll) matches Some(verdict) ==> {
            &&& verdict.0 == Some(true) <==> (poll.path_exists ==> poll.path_is_socket)
                && poll.probe_error is None
            &&& verdict.0 is None <==> (poll.path_exists ==> poll.path_is_socket)
                && poll.probe_error is Some && poll.child is Unknown
            &&& verdict.1 is None <==> verdict.0 == Some(true)
        },
{
}

/// What is found is put into one word of three.
pub proof fn law_findings_are_put_into_words()
    ensures
        state_text(Some(true)) == "ready"@,
        state_text(Some(false)) == "unavailable"@,
        state_text(None) == "unknown"@,
{
}

/// The helper is found beside the running program, whatever the program is called.
pub proof fn law_helper_is_found_beside_the_program(
    host: HostView,
    directory: Seq<Seq<char>>,
    program: Seq<char>,
)
    requires
        directory.len() > 0,
        forall|i: int|
            0 <= i < directory.len() ==> crate::notation::is_component(#[trigger] directory[i]),
        crate::notation::is_component(program),
        program != seq!['.', '.'],
        host.executable == Some(crate::notation::path_text(directory.push(program))),
        host.variable("MORAE_HELPER_PATH"@) is None,
        host.files.contains(
            crate::notation::path_text(directory.push("morae-vmm-helper"@)),
        ),
    ensures
        runtime_paths(None, None, None, None, host).helper == Some(
            crate::notation::path_text(directory.push("morae-vmm-helper"@)),
        ),
{
    reveal_strlit("morae-vmm-helper");
    reveal_strlit("..");
    reveal_strlit(".");
    assert(".."@ =~= seq!['.', '.']);
    assert("."@ =~= seq!['.']);
    let helper = "morae-vmm-helper"@;
    let dot = seq!['.'];
    assert(helper.len() == 16 && dot.len() == 1);
    assert forall|i: int| 0 <= i < helper.len() implies #[trigger] helper[i] != '/' by {}
    assert(crate::notation::is_component(helper));
    let names = directory.push(program);
    assert forall|i: int| 0 <= i < names.len() implies crate::notation::is_component(
        #[trigger] names[i],
    ) by {
        if i < directory.len() {
            assert(names[i] == directory[i]);
        }
    }
    crate::notation::law_paths_are_made_of_components(names);
    crate::notation::law_paths_hold_what_is_put_below(directory, program);
    crate::notation::law_paths_hold_what_is_put_below(directory, helper);
}

/// The version of a library is that of the directory in the cellar that its file lies in.
pub proof fn law_versions_are_read_from_the_cellar(
    names: Seq<Seq<char>>,
    package: Seq<char>,
    at: int,
)
    requires
        forall|i: int| 0 <= i < names.len() ==> crate::notation::is_component(#[trigger] names[i]),
        0 <= at,
        at + 2 < names.len(),
        names[at] == "Cellar"@,
        names[at + 1] == package,
        forall|i: int| 0 <= i < at ==> #[trigger] names[i] != "Cellar"@,
    ensures
        crate::doctor::probe::version_of(
            Some(crate::notation::path_text(names)),
            package,
        ) == Some(names[at + 2]),
{
    crate::notation::law_paths_are_made_of_components(names);
    law_versions_stand_behind_their_package(names, package, 0, at);
}

} // verus!
