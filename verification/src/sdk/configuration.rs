//! How a native sandbox is configured: from what was found on the host and where things are kept.

use vstd::prelude::*;
use vstd::string::*;

use crate::doctor::discovery::{DiskToolPaths, HostFacts, NativeRuntimePaths};
use crate::libkrun::{BoxRootSource, LibkrunConfig};
use crate::paths::join_path;
use crate::text::{copy_text, join, join3};

verus! {

/// Where everything that is kept lies: below a cache and below a state directory.
#[derive(Debug)]
pub struct ManagedStorage {
    cache_dir: String,
    state_dir: String,
}

impl ManagedStorage {
    pub closed spec fn cache_spec(&self) -> Seq<char> {
        self.cache_dir@
    }

    pub closed spec fn state_spec(&self) -> Seq<char> {
        self.state_dir@
    }

    pub fn open(cache_dir: String, state_dir: String) -> (storage: ManagedStorage)
        ensures
            storage.cache_spec() == cache_dir@,
            storage.state_spec() == state_dir@,
    {
        ManagedStorage { cache_dir, state_dir }
    }

    pub fn cache_dir(&self) -> (path: &str)
        ensures
            path@ == self.cache_spec(),
    {
        self.cache_dir.as_str()
    }

    pub fn state_dir(&self) -> (path: &str)
        ensures
            path@ == self.state_spec(),
    {
        self.state_dir.as_str()
    }

    /// Images lie in the cache.
    pub fn images(&self) -> (path: &str)
        ensures
            path@ == self.cache_spec(),
    {
        self.cache_dir.as_str()
    }

    /// Boxes are state.
    pub fn boxes(&self) -> (path: &str)
        ensures
            path@ == self.state_spec(),
    {
        self.state_dir.as_str()
    }

    /// Base disks lie in the cache.
    pub fn base_disks(&self) -> (path: &str)
        ensures
            path@ == self.cache_spec(),
    {
        self.cache_dir.as_str()
    }

    /// Disks of a single run lie below the cache.
    pub fn ephemeral_disks(&self) -> (path: String)
        ensures
            path@ == crate::paths::join_of(self.cache_spec(), "runtime"@),
    {
        join_path(self.cache_dir.as_str(), "runtime")
    }
}

/// What the caller names of the native runtime.
#[derive(Debug, Default)]
pub struct NativeRuntimeOverrides {
    pub helper: Option<String>,
    pub libkrun: Option<String>,
    pub library_search_path: Option<String>,
    pub gvproxy: Option<String>,
}

/// The platform of an image.
#[derive(Debug)]
pub struct Platform {
    pub os: String,
    pub architecture: String,
    pub variant: Option<String>,
}

/// A platform's name.
pub open spec fn platform_text(platform: Platform) -> Seq<char> {
    match platform.variant {
        Some(variant) => platform.os@ + "/"@ + platform.architecture@ + ("/"@ + variant@),
        None => platform.os@ + "/"@ + platform.architecture@,
    }
}

fn platform_name(platform: &Platform) -> (name: String)
    ensures
        name@ == platform_text(*platform),
{
    let base = join3(platform.os.as_str(), "/", platform.architecture.as_str());
    match &platform.variant {
        Some(variant) => join(base.as_str(), join("/", variant.as_str()).as_str()),
        None => base,
    }
}

/// An image that was unpacked.
#[derive(Debug)]
pub struct PreparedImage {
    pub reference: String,
    pub manifest_digest: String,
    pub rootfs: String,
}

#[derive(Debug)]
pub enum NativeConfigurationError {
    MissingHelper,
    MissingLibkrun,
    Rootfs(String),
}

impl NativeConfigurationError {
    pub open spec fn text(self) -> Seq<char> {
        match self {
            NativeConfigurationError::MissingHelper => {
                "libkrun backend requires --helper, MORAE_HELPER_PATH, or a sibling morae-vmm-helper"@
            },
            NativeConfigurationError::MissingLibkrun => {
                "libkrun backend requires --libkrun, MORAE_LIBKRUN_PATH, or a supported Homebrew libkrun"@
            },
            NativeConfigurationError::Rootfs(error) => {
                "failed to inspect the root filesystem: "@ + error@
            },
        }
    }

    pub fn message(&self) -> (text: String)
        ensures
            text@ == self.text(),
    {
        match self {
            NativeConfigurationError::MissingHelper => {
                "libkrun backend requires --helper, MORAE_HELPER_PATH, or a sibling morae-vmm-helper".to_owned()
            },
            NativeConfigurationError::MissingLibkrun => {
                "libkrun backend requires --libkrun, MORAE_LIBKRUN_PATH, or a supported Homebrew libkrun".to_owned()
            },
            NativeConfigurationError::Rootfs(error) => join(
                "failed to inspect the root filesystem: ",
                error.as_str(),
            ),
        }
    }
}

/// Where the disks of boxes come from and are kept.
#[derive(Debug)]
pub struct BoxRuntimeConfig {
    pub boxes: String,
    pub base_disks: String,
    pub ephemeral_disks: String,
    pub source: Option<BoxRootSource>,
    pub e2fsck_path: String,
}

#[derive(Debug)]
pub struct NativeSandboxConfig {
    native_paths: NativeRuntimePaths,
    disk_tools: DiskToolPaths,
    disk_size: u64,
    vcpus: u8,
    memory_mib: u32,
}

impl NativeSandboxConfig {
    pub closed spec fn paths_spec(&self) -> crate::doctor::discovery::RuntimePathsView {
        self.native_paths@
    }

    pub closed spec fn tools_spec(&self) -> crate::doctor::discovery::DiskToolsView {
        self.disk_tools@
    }

    pub closed spec fn disk_size_spec(&self) -> u64 {
        self.disk_size
    }

    pub closed spec fn compute_spec(&self) -> (u8, u32) {
        (self.vcpus, self.memory_mib)
    }

    /// Finds what the caller does not name.
    pub fn discover(
        overrides: NativeRuntimeOverrides,
        disk_tools: DiskToolPaths,
        disk_size: u64,
        vcpus: u8,
        memory_mib: u32,
        host: &HostFacts,
    ) -> (config: NativeSandboxConfig)
        ensures
            config.paths_spec() == crate::doctor::discovery::runtime_paths(
                crate::text::text_of(overrides.helper),
                crate::text::text_of(overrides.libkrun),
                crate::text::text_of(overrides.library_search_path),
                crate::text::text_of(overrides.gvproxy),
                host@,
            ),
            config.tools_spec() == disk_tools@,
            config.disk_size_spec() == disk_size,
            config.compute_spec() == (vcpus, memory_mib),
    {
        NativeSandboxConfig::from_resolved(
            NativeRuntimePaths::discover_with_gvproxy(
                overrides.helper,
                overrides.libkrun,
                overrides.library_search_path,
                overrides.gvproxy,
                host,
            ),
            disk_tools,
            disk_size,
            vcpus,
            memory_mib,
        )
    }

    pub fn from_resolved(
        native_paths: NativeRuntimePaths,
        disk_tools: DiskToolPaths,
        disk_size: u64,
        vcpus: u8,
        memory_mib: u32,
    ) -> (config: NativeSandboxConfig)
        ensures
            config.paths_spec() == native_paths@,
            config.tools_spec() == disk_tools@,
            config.disk_size_spec() == disk_size,
            config.compute_spec() == (vcpus, memory_mib),
    {
        NativeSandboxConfig { native_paths, disk_tools, disk_size, vcpus, memory_mib }
    }

    pub fn disk_tools(&self) -> (tools: &DiskToolPaths)
        ensures
            tools@ == self.tools_spec(),
    {
        &self.disk_tools
    }

    /// The root source of an unpacked image.
    pub fn prepared_image_source(&self, prepared: PreparedImage, platform: &Platform) -> (source:
        BoxRootSource)
        ensures
            source.rootfs_path == prepared.rootfs,
            source.manifest_digest == prepared.manifest_digest,
            source.platform@ == platform_text(*platform),
            source.virtual_size_bytes == self.disk_size_spec(),
            source.mke2fs_path@ == crate::doctor::discovery::or_command(
                self.tools_spec().mke2fs,
                "mke2fs"@,
            ),
    {
        self.root_source(prepared.rootfs, prepared.manifest_digest, platform_name(platform))
    }

    /// The root source of a directory, whose digest was computed.
    pub fn rootfs_source(
        &self,
        rootfs: String,
        digest: Result<String, String>,
        platform: &Platform,
    ) -> (source: Result<BoxRootSource, NativeConfigurationError>)
        ensures
            match (digest, source) {
                (Ok(text), Ok(made)) => {
                    &&& made.rootfs_path == rootfs
                    &&& made.manifest_digest == text
                    &&& made.platform@ == platform_text(*platform)
                    &&& made.virtual_size_bytes == self.disk_size_spec()
                    &&& made.mke2fs_path@ == crate::doctor::discovery::or_command(
                        self.tools_spec().mke2fs,
                        "mke2fs"@,
                    )
                },
                (Err(reason), Err(error)) => error == NativeConfigurationError::Rootfs(reason),
                _ => false,
            },
    {
        match digest {
            Ok(text) => Ok(self.root_source(rootfs, text, platform_name(platform))),
            Err(reason) => Err(NativeConfigurationError::Rootfs(reason)),
        }
    }

    /// The configuration of a machine.
    pub fn libkrun_config(
        &self,
        root_path: Option<String>,
        storage: &ManagedStorage,
        workspace_disk: Option<String>,
    ) -> (config: Result<LibkrunConfig, NativeConfigurationError>)
        ensures
            match config {
                Err(NativeConfigurationError::MissingHelper) => self.paths_spec().helper is None,
                Err(NativeConfigurationError::MissingLibkrun) => self.paths_spec().helper is Some
                    && self.paths_spec().libkrun is None,
                Err(NativeConfigurationError::Rootfs(_)) => false,
                Ok(made) => {
                    &&& self.paths_spec().helper is Some && self.paths_spec().libkrun is Some
                    &&& made@ == (crate::libkrun::LibkrunConfigView {
                        helper_path: self.paths_spec().helper->0,
                        library_path: self.paths_spec().libkrun->0,
                        libkrunfw_path: self.paths_spec().libkrunfw,
                        root_path: crate::doctor::discovery::or_command(
                            crate::text::text_of(root_path),
                            Seq::empty(),
                        ),
                        root_disk: None,
                        debugfs_path: crate::doctor::discovery::or_command(
                            self.tools_spec().debugfs,
                            "debugfs"@,
                        ),
                        library_search_path: self.paths_spec().library_search_path,
                        vcpus: self.compute_spec().0,
                        memory_mib: self.compute_spec().1,
                        workspace_disk: crate::text::text_of(workspace_disk),
                        gvproxy_path: self.paths_spec().gvproxy,
                        network_runtime_dir: crate::paths::join_of(
                            storage.cache_spec(),
                            "network"@,
                        ),
                        control_runtime_dir: ".moraebox/control"@,
                    })
                },
            },
    {
        let helper = match copy_text(&self.native_paths.helper) {
            Some(path) => path,
            None => {
                return Err(NativeConfigurationError::MissingHelper);
            },
        };
        let libkrun = match copy_text(&self.native_paths.libkrun) {
            Some(path) => path,
            None => {
                return Err(NativeConfigurationError::MissingLibkrun);
            },
        };
        let root = match root_path {
            Some(path) => path,
            None => String::new(),
        };
        assert(root@ =~= crate::doctor::discovery::or_command(
            crate::text::text_of(root_path),
            Seq::empty(),
        ));
        let mut config = LibkrunConfig::new(helper, libkrun, root, None);
        config.libkrunfw_path = copy_text(&self.native_paths.libkrunfw);
        config.library_search_path = copy_text(&self.native_paths.library_search_path);
        config.gvproxy_path = copy_text(&self.native_paths.gvproxy);
        config.debugfs_path = self.disk_tools.debugfs_command();
        config.network_runtime_dir = join_path(storage.cache_dir(), "network");
        config.workspace_disk = workspace_disk;
        config.vcpus = self.vcpus;
        config.memory_mib = self.memory_mib;
        Ok(config)
    }

    /// Where boxes come from and are kept.
    pub fn box_runtime(&self, storage: &ManagedStorage, source: Option<BoxRootSource>) -> (runtime:
        BoxRuntimeConfig)
        ensures
            runtime.boxes@ == storage.state_spec(),
            runtime.base_disks@ == storage.cache_spec(),
            runtime.ephemeral_disks@ == crate::paths::join_of(storage.cache_spec(), "runtime"@),
            runtime.source == source,
            runtime.e2fsck_path@ == crate::doctor::discovery::or_command(
                self.tools_spec().e2fsck,
                "e2fsck"@,
            ),
    {
        BoxRuntimeConfig {
            boxes: storage.boxes().to_owned(),
            base_disks: storage.base_disks().to_owned(),
            ephemeral_disks: storage.ephemeral_disks(),
            source,
            e2fsck_path: self.disk_tools.e2fsck_command(),
        }
    }

    fn root_source(&self, rootfs_path: String, manifest_digest: String, platform: String) -> (source:
        BoxRootSource)
        ensures
            source.rootfs_path == rootfs_path,
            source.manifest_digest == manifest_digest,
            source.platform == platform,
            source.virtual_size_bytes == self.disk_size_spec(),
            source.mke2fs_path@ == crate::doctor::discovery::or_command(
                self.tools_spec().mke2fs,
                "mke2fs"@,
            ),
    {
        BoxRootSource {
            rootfs_path,
            manifest_digest,
            platform,
            virtual_size_bytes: self.disk_size,
            mke2fs_path: self.disk_tools.mke2fs_command(),
        }
    }
}

} // verus!
