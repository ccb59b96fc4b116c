//! Where the parts of the native runtime are found: what the caller names, then what the
//! environment names, then the places where they are usually installed.

use vstd::prelude::*;
use vstd::string::*;

use crate::paths::{components, join_path, parent, same_path};
use crate::text::{contains_text, join_texts, same_text};

verus! {

/// What the host offers to a search.
#[derive(Debug)]
pub struct HostFacts {
    /// Environment variables and their values.
    pub environment: Vec<(String, String)>,
    /// The directories in which programs are searched.
    pub search_path: Vec<String>,
    /// The path of the running program.
    pub executable: Option<String>,
    /// The regular files among the paths that are looked at.
    pub files: Vec<String>,
}

pub struct HostView {
    pub environment: Seq<(Seq<char>, Seq<char>)>,
    pub search_path: Seq<Seq<char>>,
    pub executable: Option<Seq<char>>,
    pub files: Seq<Seq<char>>,
}

impl View for HostFacts {
    type V = HostView;

    open spec fn view(&self) -> HostView {
        HostView {
            environment: self.environment@.map_values(|pair: (String, String)| (pair.0@, pair.1@)),
            search_path: crate::text::strings(self.search_path@),
            executable: crate::text::text_of(self.executable),
            files: crate::text::strings(self.files@),
        }
    }
}

/// The value of a variable, from a position of the environment on.
pub open spec fn variable_from(
    environment: Seq<(Seq<char>, Seq<char>)>,
    key: Seq<char>,
    from: int,
) -> Option<Seq<char>>
    decreases environment.len() - from,
{
    if 0 <= from < environment.len() {
        if environment[from].0 == key {
            Some(environment[from].1)
        } else {
            variable_from(environment, key, from + 1)
        }
    } else {
        None
    }
}

/// The first of some paths, from a position on, that is a file.
pub open spec fn first_file(
    candidates: Seq<Seq<char>>,
    files: Seq<Seq<char>>,
    from: int,
) -> Option<Seq<char>>
    decreases candidates.len() - from,
{
    if 0 <= from < candidates.len() {
        if files.contains(candidates[from]) {
            Some(candidates[from])
        } else {
            first_file(candidates, files, from + 1)
        }
    } else {
        None
    }
}

pub open spec fn or_else(first: Option<Seq<char>>, second: Option<Seq<char>>) -> Option<Seq<char>> {
    match first {
        Some(_) => first,
        None => second,
    }
}

/// A path that counts only if it is a file.
pub open spec fn if_file(path: Option<Seq<char>>, files: Seq<Seq<char>>) -> Option<Seq<char>> {
    match path {
        Some(text) => if files.contains(text) {
            path
        } else {
            None
        },
        None => None,
    }
}

/// A path with another last component; one that has no name gets the name below it.
pub open spec fn with_file_name_of(path: Seq<char>, name: Seq<char>) -> Seq<char> {
    let parts = crate::paths::components_from(path, 0);
    if parts.len() == 0 || parts.last() == ".."@ || parts.last() == "."@ {
        crate::paths::join_of(path, name)
    } else {
        match crate::paths::parent_of(path) {
            Some(directory) => crate::paths::join_of(directory, name),
            None => crate::paths::join_of(path, name),
        }
    }
}

pub open spec fn parent_if(path: Option<Seq<char>>) -> Option<Seq<char>> {
    match path {
        Some(text) => crate::paths::parent_of(text),
        None => None,
    }
}

impl HostView {
    pub open spec fn variable(self, key: Seq<char>) -> Option<Seq<char>> {
        variable_from(self.environment, key, 0)
    }

    pub open spec fn candidate(self, candidates: Seq<Seq<char>>) -> Option<Seq<char>> {
        first_file(candidates, self.files, 0)
    }

    /// A program in the search path.
    pub open spec fn program(self, name: Seq<char>) -> Option<Seq<char>> {
        first_file(
            self.search_path.map_values(|directory: Seq<char>| crate::paths::join_of(directory, name)),
            self.files,
            0,
        )
    }

    /// The helper beside the running program.
    pub open spec fn sibling_helper(self) -> Option<Seq<char>> {
        match self.executable {
            Some(program) => if_file(
                Some(with_file_name_of(program, "morae-vmm-helper"@)),
                self.files,
            ),
            None => None,
        }
    }

    /// A library beside another.
    pub open spec fn sibling_library(
        self,
        library: Option<Seq<char>>,
        name: Seq<char>,
    ) -> Option<Seq<char>> {
        match parent_if(library) {
            Some(directory) => if_file(
                Some(crate::paths::join_of(directory, name)),
                self.files,
            ),
            None => None,
        }
    }

    /// A tool: the caller's, the environment's, that of the search path, or an installed one.
    pub open spec fn tool(
        self,
        explicit: Option<Seq<char>>,
        key: Seq<char>,
        name: Seq<char>,
        candidates: Seq<Seq<char>>,
    ) -> Option<Seq<char>> {
        or_else(
            explicit,
            or_else(self.variable(key), or_else(self.program(name), self.candidate(candidates))),
        )
    }
}

pub open spec fn str_views(texts: Seq<&'static str>) -> Seq<Seq<char>> {
    texts.map_values(|text: &'static str| text@)
}

pub open spec fn libkrun_places() -> Seq<Seq<char>> {
    seq![
        "/opt/homebrew/lib/libkrun.dylib"@,
        "/opt/homebrew/opt/libkrun/lib/libkrun.dylib"@,
        "/usr/local/lib/libkrun.dylib"@,
    ]
}

pub open spec fn libkrunfw_places() -> Seq<Seq<char>> {
    seq![
        "/opt/homebrew/lib/libkrunfw.dylib"@,
        "/opt/homebrew/opt/libkrunfw/lib/libkrunfw.dylib"@,
        "/usr/local/lib/libkrunfw.dylib"@,
    ]
}

pub open spec fn gvproxy_places() -> Seq<Seq<char>> {
    seq!["/opt/homebrew/bin/gvproxy"@, "/usr/local/bin/gvproxy"@, "/usr/bin/gvproxy"@]
}

pub open spec fn mke2fs_places() -> Seq<Seq<char>> {
    seq![
        "/opt/homebrew/opt/e2fsprogs/sbin/mke2fs"@,
        "/usr/local/opt/e2fsprogs/sbin/mke2fs"@,
        "/usr/local/sbin/mke2fs"@,
        "/usr/sbin/mke2fs"@,
    ]
}

pub open spec fn e2fsck_places() -> Seq<Seq<char>> {
    seq![
        "/opt/homebrew/opt/e2fsprogs/sbin/e2fsck"@,
        "/usr/local/opt/e2fsprogs/sbin/e2fsck"@,
        "/usr/local/sbin/e2fsck"@,
        "/usr/sbin/e2fsck"@,
    ]
}

pub open spec fn debugfs_places() -> Seq<Seq<char>> {
    seq![
        "/opt/homebrew/opt/e2fsprogs/sbin/debugfs"@,
        "/usr/local/opt/e2fsprogs/sbin/debugfs"@,
        "/usr/local/sbin/debugfs"@,
        "/usr/sbin/debugfs"@,
    ]
}

pub fn libkrun_candidates() -> (places: Vec<&'static str>)
    ensures
        str_views(places@) == libkrun_places(),
{
    let places: Vec<&'static str> =
        vec![
        "/opt/homebrew/lib/libkrun.dylib",
        "/opt/homebrew/opt/libkrun/lib/libkrun.dylib",
        "/usr/local/lib/libkrun.dylib",
    ];
    assert(str_views(places@) =~= libkrun_places());
    places
}

pub fn libkrunfw_candidates() -> (places: Vec<&'static str>)
    ensures
        str_views(places@) == libkrunfw_places(),
{
    let places: Vec<&'static str> =
        vec![
        "/opt/homebrew/lib/libkrunfw.dylib",
        "/opt/homebrew/opt/libkrunfw/lib/libkrunfw.dylib",
        "/usr/local/lib/libkrunfw.dylib",
    ];
    assert(str_views(places@) =~= libkrunfw_places());
    places
}

pub fn gvproxy_candidates() -> (places: Vec<&'static str>)
    ensures
        str_views(places@) == gvproxy_places(),
{
    let places: Vec<&'static str> =
        vec!["/opt/homebrew/bin/gvproxy", "/usr/local/bin/gvproxy", "/usr/bin/gvproxy"];
    assert(str_views(places@) =~= gvproxy_places());
    places
}

pub fn mke2fs_candidates() -> (places: Vec<&'static str>)
    ensures
        str_views(places@) == mke2fs_places(),
{
    let places: Vec<&'static str> =
        vec![
        "/opt/homebrew/opt/e2fsprogs/sbin/mke2fs",
        "/usr/local/opt/e2fsprogs/sbin/mke2fs",
        "/usr/local/sbin/mke2fs",
        "/usr/sbin/mke2fs",
    ];
    assert(str_views(places@) =~= mke2fs_places());
    places
}

pub fn e2fsck_candidates() -> (places: Vec<&'static str>)
    ensures
        str_views(places@) == e2fsck_places(),
{
    let places: Vec<&'static str> =
        vec![
        "/opt/homebrew/opt/e2fsprogs/sbin/e2fsck",
        "/usr/local/opt/e2fsprogs/sbin/e2fsck",
        "/usr/local/sbin/e2fsck",
        "/usr/sbin/e2fsck",
    ];
    assert(str_views(places@) =~= e2fsck_places());
    places
}

pub fn debugfs_candidates() -> (places: Vec<&'static str>)
    ensures
        str_views(places@) == debugfs_places(),
{
    let places: Vec<&'static str> =
        vec![
        "/opt/homebrew/opt/e2fsprogs/sbin/debugfs",
        "/usr/local/opt/e2fsprogs/sbin/debugfs",
        "/usr/local/sbin/debugfs",
        "/usr/sbin/debugfs",
    ];
    assert(str_views(places@) =~= debugfs_places());
    places
}

/// Whether a path is among the known files.
pub fn is_listed(files: &Vec<String>, path: &str) -> (listed: bool)
    ensures
        listed == crate::text::strings(files@).contains(path@),
{
    let ghost views = crate::text::strings(files@);
    let mut i: usize = 0;
    while i < files.len()
        invariant
            i <= files@.len(),
            views == crate::text::strings(files@),
            forall|j: int| 0 <= j < i ==> views[j] != path@,
        decreases files@.len() - i,
    {
        assert(views[i as int] == files@[i as int]@);
        if same_text(files[i].as_str(), path) {
            return true;
        }
        i += 1;
    }
    false
}

fn either(first: Option<String>, second: Option<String>) -> (found: Option<String>)
    ensures
        crate::text::text_of(found) == or_else(
            crate::text::text_of(first),
            crate::text::text_of(second),
        ),
{
    match first {
        Some(text) => Some(text),
        None => second,
    }
}

/// A path with another last component.
pub fn with_file_name(path: &str, name: &str) -> (named: String)
    ensures
        named@ == with_file_name_of(path@, name@),
{
    let parts = components(path);
    let ghost views = crate::text::strings(parts@);
    assert(views.len() == parts@.len());
    if parts.len() == 0 {
        return join_path(path, name);
    }
    let last = parts[parts.len() - 1].as_str();
    assert(views.last() == last@);
    if same_text(last, "..") || same_text(last, ".") {
        return join_path(path, name);
    }
    match parent(path) {
        Some(directory) => join_path(directory.as_str(), name),
        None => join_path(path, name),
    }
}

impl HostFacts {
    /// The value of an environment variable.
    pub fn configured_path(&self, key: &str) -> (value: Option<String>)
        ensures
            crate::text::text_of(value) == self@.variable(key@),
    {
        let mut i: usize = 0;
        while i < self.environment.len()
            invariant
                i <= self.environment@.len(),
                self@.variable(key@) == variable_from(self@.environment, key@, i as int),
            decreases self.environment@.len() - i,
        {
            if same_text(self.environment[i].0.as_str(), key) {
                return Some(self.environment[i].1.as_str().to_owned());
            }
            i += 1;
        }
        None
    }

    /// The first of some paths that is a file.
    pub fn find_candidate(&self, candidates: &Vec<&'static str>) -> (found: Option<String>)
        ensures
            crate::text::text_of(found) == self@.candidate(str_views(candidates@)),
    {
        let mut i: usize = 0;
        while i < candidates.len()
            invariant
                i <= candidates@.len(),
                self@.candidate(str_views(candidates@)) == first_file(
                    str_views(candidates@),
                    self@.files,
                    i as int,
                ),
            decreases candidates@.len() - i,
        {
            assert(str_views(candidates@)[i as int] == candidates@[i as int]@);
            if is_listed(&self.files, candidates[i]) {
                return Some(candidates[i].to_owned());
            }
            i += 1;
        }
        None
    }

    /// A program in the search path.
    pub fn find_in_path(&self, name: &str) -> (found: Option<String>)
        ensures
            crate::text::text_of(found) == self@.program(name@),
    {
        let ghost places = self@.search_path.map_values(
            |directory: Seq<char>| crate::paths::join_of(directory, name@),
        );
        let mut i: usize = 0;
        while i < self.search_path.len()
            invariant
                i <= self.search_path@.len(),
                places == self@.search_path.map_values(
                    |directory: Seq<char>| crate::paths::join_of(directory, name@),
                ),
                self@.program(name@) == first_file(places, self@.files, i as int),
            decreases self.search_path@.len() - i,
        {
            let candidate = join_path(self.search_path[i].as_str(), name);
            assert(places[i as int] == candidate@);
            if is_listed(&self.files, candidate.as_str()) {
                return Some(candidate);
            }
            i += 1;
        }
        None
    }

    /// The helper beside the running program.
    pub fn find_sibling_helper(&self) -> (found: Option<String>)
        ensures
            crate::text::text_of(found) == self@.sibling_helper(),
    {
        match &self.executable {
            Some(program) => {
                let sibling = with_file_name(program.as_str(), "morae-vmm-helper");
                if is_listed(&self.files, sibling.as_str()) {
                    Some(sibling)
                } else {
                    None
                }
            },
            None => None,
        }
    }

    /// A library beside another.
    pub fn find_sibling_library(&self, library: &Option<String>, name: &str) -> (found: Option<
        String,
    >)
        ensures
            crate::text::text_of(found) == self@.sibling_library(
                crate::text::text_of(*library),
                name@,
            ),
    {
        let directory = match library {
            Some(path) => parent(path.as_str()),
            None => None,
        };
        match directory {
            Some(directory) => {
                let sibling = join_path(directory.as_str(), name);
                if is_listed(&self.files, sibling.as_str()) {
                    Some(sibling)
                } else {
                    None
                }
            },
            None => None,
        }
    }

    /// A tool: the caller's, the environment's, that of the search path, or an installed one.
    pub fn resolve_tool_path(
        &self,
        explicit: Option<String>,
        key: &str,
        name: &str,
        candidates: &Vec<&'static str>,
    ) -> (found: Option<String>)
        ensures
            crate::text::text_of(found) == self@.tool(
                crate::text::text_of(explicit),
                key@,
                name@,
                str_views(candidates@),
            ),
    {
        either(
            explicit,
            either(
                self.configured_path(key),
                either(self.find_in_path(name), self.find_candidate(candidates)),
            ),
        )
    }
}

/// The directories of two libraries, each once.
pub open spec fn library_parents(
    libkrun: Option<Seq<char>>,
    libkrunfw: Option<Seq<char>>,
) -> Seq<Seq<char>> {
    match (parent_if(libkrun), parent_if(libkrunfw)) {
        (None, None) => Seq::empty(),
        (Some(only), None) => seq![only],
        (None, Some(only)) => seq![only],
        (Some(first), Some(second)) => if crate::paths::same_path_spec(first, second) {
            seq![first]
        } else {
            seq![first, second]
        },
    }
}

/// Directories as a search path, in which a colon stands between two; a directory with a colon in
/// its name has none.
pub open spec fn search_path_of(directories: Seq<Seq<char>>) -> Option<Seq<char>> {
    if directories.len() == 0 || (exists|i: int|
        0 <= i < directories.len() && crate::text::occurs_in(#[trigger] directories[i], ":"@)) {
        None
    } else {
        Some(crate::text::joined_by(directories, ":"@))
    }
}

/// The search path for two libraries.
pub fn library_parent_path(libkrun: &Option<String>, libkrunfw: &Option<String>) -> (path: Option<
    String,
>)
    ensures
        crate::text::text_of(path) == search_path_of(
            library_parents(crate::text::text_of(*libkrun), crate::text::text_of(*libkrunfw)),
        ),
{
    let first = match libkrun {
        Some(path) => parent(path.as_str()),
        None => None,
    };
    let second = match libkrunfw {
        Some(path) => parent(path.as_str()),
        None => None,
    };
    let ghost parents = library_parents(
        crate::text::text_of(*libkrun),
        crate::text::text_of(*libkrunfw),
    );
    let mut directories: Vec<String> = Vec::new();
    match first {
        Some(directory) => {
            match second {
                Some(other) => {
                    let again: bool = same_path(directory.as_str(), other.as_str());
                    directories.push(directory);
                    if !again {
                        directories.push(other);
                    }
                },
                None => {
                    directories.push(directory);
                },
            }
        },
        None => {
            match second {
                Some(other) => {
                    directories.push(other);
                },
                None => {},
            }
        },
    }
    assert(crate::text::strings(directories@) =~= parents);
    if directories.len() == 0 {
        return None;
    }
    let mut i: usize = 0;
    while i < directories.len()
        invariant
            i <= directories@.len(),
            parents == crate::text::strings(directories@),
            parents == library_parents(
                crate::text::text_of(*libkrun),
                crate::text::text_of(*libkrunfw),
            ),
            forall|j: int|
                0 <= j < i ==> !crate::text::occurs_in(#[trigger] parents[j], ":"@),
        decreases directories@.len() - i,
    {
        assert(parents[i as int] == directories@[i as int]@);
        if contains_text(directories[i].as_str(), ":") {
            return None;
        }
        i += 1;
    }
    Some(join_texts(&directories, ":"))
}

/// The parts of the native runtime.
#[derive(Debug)]
pub struct NativeRuntimePaths {
    pub helper: Option<String>,
    pub libkrun: Option<String>,
    pub libkrunfw: Option<String>,
    pub gvproxy: Option<String>,
    pub library_search_path: Option<String>,
}

pub struct RuntimePathsView {
    pub helper: Option<Seq<char>>,
    pub libkrun: Option<Seq<char>>,
    pub libkrunfw: Option<Seq<char>>,
    pub gvproxy: Option<Seq<char>>,
    pub library_search_path: Option<Seq<char>>,
}

impl View for NativeRuntimePaths {
    type V = RuntimePathsView;

    open spec fn view(&self) -> RuntimePathsView {
        RuntimePathsView {
            helper: crate::text::text_of(self.helper),
            libkrun: crate::text::text_of(self.libkrun),
            libkrunfw: crate::text::text_of(self.libkrunfw),
            gvproxy: crate::text::text_of(self.gvproxy),
            library_search_path: crate::text::text_of(self.library_search_path),
        }
    }
}

/// Where the parts of the native runtime are found.
pub open spec fn runtime_paths(
    helper: Option<Seq<char>>,
    libkrun: Option<Seq<char>>,
    library_search_path: Option<Seq<char>>,
    gvproxy: Option<Seq<char>>,
    host: HostView,
) -> RuntimePathsView {
    let library = or_else(
        libkrun,
        or_else(host.variable("MORAE_LIBKRUN_PATH"@), host.candidate(libkrun_places())),
    );
    let firmware = or_else(
        host.variable("MORAE_LIBKRUNFW_PATH"@),
        or_else(
            host.sibling_library(library, "libkrunfw.dylib"@),
            host.candidate(libkrunfw_places()),
        ),
    );
    RuntimePathsView {
        helper: or_else(
            helper,
            or_else(host.variable("MORAE_HELPER_PATH"@), host.sibling_helper()),
        ),
        libkrun: library,
        libkrunfw: firmware,
        gvproxy: host.tool(gvproxy, "MORAE_GVPROXY_PATH"@, "gvproxy"@, gvproxy_places()),
        library_search_path: or_else(
            library_search_path,
            or_else(
                host.variable("MORAE_LIB_DIR"@),
                search_path_of(library_parents(library, firmware)),
            ),
        ),
    }
}

impl NativeRuntimePaths {
    /// Finds the parts of the native runtime that the caller does not name.
    pub fn discover(
        helper: Option<String>,
        libkrun: Option<String>,
        library_search_path: Option<String>,
        host: &HostFacts,
    ) -> (paths: NativeRuntimePaths)
        ensures
            paths@ == runtime_paths(
                crate::text::text_of(helper),
                crate::text::text_of(libkrun),
                crate::text::text_of(library_search_path),
                None,
                host@,
            ),
    {
        NativeRuntimePaths::discover_with_gvproxy(helper, libkrun, library_search_path, None, host)
    }

    /// Finds the parts of the native runtime, the network proxy among them, that the caller does
    /// not name.
    pub fn discover_with_gvproxy(
        helper: Option<String>,
        libkrun: Option<String>,
        library_search_path: Option<String>,
        gvproxy: Option<String>,
        host: &HostFacts,
    ) -> (paths: NativeRuntimePaths)
        ensures
            paths@ == runtime_paths(
                crate::text::text_of(helper),
                crate::text::text_of(libkrun),
                crate::text::text_of(library_search_path),
                crate::text::text_of(gvproxy),
                host@,
            ),
    {
        let helper = either(
            helper,
            either(host.configured_path("MORAE_HELPER_PATH"), host.find_sibling_helper()),
        );
        let libkrun = either(
            libkrun,
            either(
                host.configured_path("MORAE_LIBKRUN_PATH"),
                host.find_candidate(&libkrun_candidates()),
            ),
        );
        let libkrunfw = either(
            host.configured_path("MORAE_LIBKRUNFW_PATH"),
            either(
                host.find_sibling_library(&libkrun, "libkrunfw.dylib"),
                host.find_candidate(&libkrunfw_candidates()),
            ),
        );
        let library_search_path = either(
            library_search_path,
            either(
                host.configured_path("MORAE_LIB_DIR"),
                library_parent_path(&libkrun, &libkrunfw),
            ),
        );
        let gvproxy = host.resolve_tool_path(
            gvproxy,
            "MORAE_GVPROXY_PATH",
            "gvproxy",
            &gvproxy_candidates(),
        );
        NativeRuntimePaths { helper, libkrun, libkrunfw, gvproxy, library_search_path }
    }
}

/// The tools that work on disk images.
#[derive(Debug)]
pub struct DiskToolPaths {
    pub mke2fs: Option<String>,
    pub e2fsck: Option<String>,
    pub debugfs: Option<String>,
}

pub struct DiskToolsView {
    pub mke2fs: Option<Seq<char>>,
    pub e2fsck: Option<Seq<char>>,
    pub debugfs: Option<Seq<char>>,
}

impl View for DiskToolPaths {
    type V = DiskToolsView;

    open spec fn view(&self) -> DiskToolsView {
        DiskToolsView {
            mke2fs: crate::text::text_of(self.mke2fs),
            e2fsck: crate::text::text_of(self.e2fsck),
            debugfs: crate::text::text_of(self.debugfs),
        }
    }
}

/// Where the disk tools are found.
pub open spec fn disk_tools(
    mke2fs: Option<Seq<char>>,
    e2fsck: Option<Seq<char>>,
    debugfs: Option<Seq<char>>,
    host: HostView,
) -> DiskToolsView {
    DiskToolsView {
        mke2fs: host.tool(mke2fs, "MORAE_MKE2FS"@, "mke2fs"@, mke2fs_places()),
        e2fsck: host.tool(e2fsck, "MORAE_E2FSCK"@, "e2fsck"@, e2fsck_places()),
        debugfs: host.tool(debugfs, "MORAE_DEBUGFS"@, "debugfs"@, debugfs_places()),
    }
}

/// A path, or else a bare command name.
pub open spec fn or_command(path: Option<Seq<char>>, name: Seq<char>) -> Seq<char> {
    match path {
        Some(text) => text,
        None => name,
    }
}

fn path_or(path: &Option<String>, name: &str) -> (command: String)
    ensures
        command@ == or_command(crate::text::text_of(*path), name@),
{
    match path {
        Some(text) => text.as_str().to_owned(),
        None => name.to_owned(),
    }
}

impl DiskToolPaths {
    /// Finds the disk tools that the caller does not name.
    pub fn discover(mke2fs: Option<String>, e2fsck: Option<String>, host: &HostFacts) -> (paths:
        DiskToolPaths)
        ensures
            paths@ == disk_tools(
                crate::text::text_of(mke2fs),
                crate::text::text_of(e2fsck),
                None,
                host@,
            ),
    {
        DiskToolPaths::discover_with_debugfs(mke2fs, e2fsck, None, host)
    }

    /// Finds the disk tools, with the one that puts the agent into an image, that the caller does
    /// not name.
    pub fn discover_with_debugfs(
        mke2fs: Option<String>,
        e2fsck: Option<String>,
        debugfs: Option<String>,
        host: &HostFacts,
    ) -> (paths: DiskToolPaths)
        ensures
            paths@ == disk_tools(
                crate::text::text_of(mke2fs),
                crate::text::text_of(e2fsck),
                crate::text::text_of(debugfs),
                host@,
            ),
    {
        DiskToolPaths {
            mke2fs: host.resolve_tool_path(mke2fs, "MORAE_MKE2FS", "mke2fs", &mke2fs_candidates()),
            e2fsck: host.resolve_tool_path(e2fsck, "MORAE_E2FSCK", "e2fsck", &e2fsck_candidates()),
            debugfs: host.resolve_tool_path(
                debugfs,
                "MORAE_DEBUGFS",
                "debugfs",
                &debugfs_candidates(),
            ),
        }
    }

    pub fn mke2fs_command(&self) -> (command: String)
        ensures
            command@ == or_command(self@.mke2fs, "mke2fs"@),
    {
        path_or(&self.mke2fs, "mke2fs")
    }

    pub fn e2fsck_command(&self) -> (command: String)
        ensures
            command@ == or_command(self@.e2fsck, "e2fsck"@),
    {
        path_or(&self.e2fsck, "e2fsck")
    }

    pub fn debugfs_command(&self) -> (command: String)
        ensures
            command@ == or_command(self@.debugfs, "debugfs"@),
    {
        path_or(&self.debugfs, "debugfs")
    }
}

/// A path that the caller names is never replaced, whatever the host offers and whatever else the
/// caller names.
pub proof fn law_explicit_paths_win(
    path: Seq<char>,
    first: Option<Seq<char>>,
    second: Option<Seq<char>>,
    third: Option<Seq<char>>,
    host: HostView,
)
    ensures
        runtime_paths(Some(path), first, second, third, host).helper == Some(path),
        runtime_paths(first, Some(path), second, third, host).libkrun == Some(path),
        runtime_paths(first, second, Some(path), third, host).library_search_path == Some(path),
        runtime_paths(first, second, third, Some(path), host).gvproxy == Some(path),
        disk_tools(Some(path), first, second, host).mke2fs == Some(path),
        disk_tools(first, Some(path), second, host).e2fsck == Some(path),
        disk_tools(first, second, Some(path), host).debugfs == Some(path),
{
}

} // verus!
