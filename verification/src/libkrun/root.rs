//! The root of a machine: where it comes from, and how a persistent one is kept sound.

use vstd::prelude::*;
use vstd::string::*;

use crate::backend::{BackendError, BackendErrorView, RootMode};
use crate::pool::{PreparedKey, PreparedKeyView};
use crate::text::{from_utf8_lossy, join, join3, signed_decimal, trim};

verus! {

/// Where the root of a run comes from: a managed store gives a box its own disk and any other run
/// a fresh one; without a store it is a given disk or a given directory.
pub open spec fn root_mode_of(managed: bool, has_box: bool, has_disk: bool) -> RootMode {
    if managed {
        if has_box {
            RootMode::Persistent
        } else {
            RootMode::Ephemeral
        }
    } else if has_disk {
        RootMode::StaticDisk
    } else {
        RootMode::Directory
    }
}

pub fn root_mode(managed: bool, has_box: bool, has_disk: bool) -> (mode: RootMode)
    ensures
        mode == root_mode_of(managed, has_box, has_disk),
{
    if managed {
        if has_box {
            RootMode::Persistent
        } else {
            RootMode::Ephemeral
        }
    } else if has_disk {
        RootMode::StaticDisk
    } else {
        RootMode::Directory
    }
}

/// A root that is ready.
#[derive(Debug)]
pub enum PreparedRoot {
    Directory,
    StaticDisk(String),
    /// A disk of the store, held for this machine.
    Managed(String),
}

impl PreparedRoot {
    /// The disk of the root, if it is one.
    pub fn disk_path(&self) -> (path: Option<&str>)
        ensures
            match (path, *self) {
                (None, PreparedRoot::Directory) => true,
                (Some(found), PreparedRoot::StaticDisk(disk)) => found@ == disk@,
                (Some(found), PreparedRoot::Managed(disk)) => found@ == disk@,
                _ => false,
            },
    {
        match self {
            PreparedRoot::Directory => None,
            PreparedRoot::StaticDisk(disk) => Some(disk.as_str()),
            PreparedRoot::Managed(disk) => Some(disk.as_str()),
        }
    }

    /// Whether the root is held for this machine.
    pub fn has_lease(&self) -> (held: bool)
        ensures
            held == (self is Managed),
    {
        matches!(self, PreparedRoot::Managed(_))
    }
}

/// The key under which the disks for a run are prepared.
pub open spec fn prepared_key_of(
    manifest_digest: Seq<char>,
    workspace_digest: Option<Seq<char>>,
    base_key: Seq<char>,
) -> PreparedKeyView {
    PreparedKeyView { image_digest: manifest_digest, workspace_digest, policy_digest: base_key }
}

/// The key under which a disk is leased and replenished: by the image's manifest, the workspace
/// image, if there is one, and the base disk that the disk is a clone of.
pub fn prepared_key(manifest_digest: &str, workspace_digest: &Option<String>, base_key: &str) -> (key:
    PreparedKey)
    ensures
        key@ == prepared_key_of(
            manifest_digest@,
            crate::text::text_of(*workspace_digest),
            base_key@,
        ),
{
    PreparedKey {
        image_digest: manifest_digest.to_owned(),
        workspace_digest: match workspace_digest {
            Some(digest) => Some(digest.as_str().to_owned()),
            None => None,
        },
        policy_digest: base_key.to_owned(),
    }
}

/// Runs that differ in their image, their workspace or their base disk have different keys, so that
/// neither is given a disk that was prepared for the other.
pub proof fn law_prepared_keys_tell_runs_apart(
    manifest_digest: Seq<char>,
    workspace_digest: Option<Seq<char>>,
    base_key: Seq<char>,
    other_manifest: Seq<char>,
    other_workspace: Option<Seq<char>>,
    other_base: Seq<char>,
)
    ensures
        prepared_key_of(manifest_digest, workspace_digest, base_key) == prepared_key_of(
            other_manifest,
            other_workspace,
            other_base,
        ) <==> manifest_digest == other_manifest && workspace_digest == other_workspace && base_key
            == other_base,
{
}

/// The state in which a box was left.
#[derive(Debug, Clone, Copy, PartialEq, Eq, Structural)]
pub enum BoxState {
    Clean,
    Dirty,
}

/// The preparation of a persistent root.
#[derive(Debug, Clone, Copy, PartialEq, Eq, Structural)]
pub enum PersistentPhase {
    Locking,
    Repairing,
    /// The box is about to be marked as in use.
    Opening,
    Ready,
    Failed,
}

#[derive(Debug, Clone, Copy, PartialEq, Eq, Structural)]
pub enum PersistentEvent {
    Locked(BoxState),
    Repaired,
    Opened,
    Failed,
}

impl PersistentPhase {
    pub open spec fn after(self, event: PersistentEvent) -> PersistentPhase {
        match (self, event) {
            (PersistentPhase::Locking, PersistentEvent::Locked(BoxState::Dirty)) => {
                PersistentPhase::Repairing
            },
            (PersistentPhase::Locking, PersistentEvent::Locked(BoxState::Clean)) => {
                PersistentPhase::Opening
            },
            (PersistentPhase::Repairing, PersistentEvent::Repaired) => PersistentPhase::Opening,
            (PersistentPhase::Opening, PersistentEvent::Opened) => PersistentPhase::Ready,
            _ => PersistentPhase::Failed,
        }
    }

    /// Takes an event; the new phase says what is to be done next.
    pub fn step(self, event: PersistentEvent) -> (next: PersistentPhase)
        ensures
            next == self.after(event),
    {
        match (self, event) {
            (PersistentPhase::Locking, PersistentEvent::Locked(BoxState::Dirty)) => {
                PersistentPhase::Repairing
            },
            (PersistentPhase::Locking, PersistentEvent::Locked(BoxState::Clean)) => {
                PersistentPhase::Opening
            },
            (PersistentPhase::Repairing, PersistentEvent::Repaired) => PersistentPhase::Opening,
            (PersistentPhase::Opening, PersistentEvent::Opened) => PersistentPhase::Ready,
            _ => PersistentPhase::Failed,
        }
    }
}

/// A box that was left dirty is repaired before it is used: nothing but a repair leads from its
/// lock to its use.
pub proof fn law_dirty_box_is_repaired_first(event: PersistentEvent)
    ensures
        PersistentPhase::Locking.after(PersistentEvent::Locked(BoxState::Dirty))
            == PersistentPhase::Repairing,
        PersistentPhase::Repairing.after(event) == PersistentPhase::Opening <==> event
            == PersistentEvent::Repaired,
        PersistentPhase::Repairing.after(event) != PersistentPhase::Ready,
{
}

/// The preparation of an ephemeral root: a base disk from the cache or freshly made, then a disk
/// from the pool or freshly cloned.
#[derive(Debug, Clone, Copy, PartialEq, Eq, Structural)]
pub enum EphemeralPhase {
    LookingUp,
    PreparingBase,
    Leasing,
    Cloning,
    Ready,
    Failed,
}

#[derive(Debug, Clone, Copy, PartialEq, Eq, Structural)]
pub enum EphemeralEvent {
    BaseFound,
    BaseMissing,
    BasePrepared,
    Leased,
    PoolEmpty,
    Cloned,
    Failed,
}

#[derive(Debug, Clone, Copy, PartialEq, Eq, Structural)]
pub struct EphemeralRoot {
    pub phase: EphemeralPhase,
    pub has_pool: bool,
    /// Whether the pool had a disk, once it has been asked.
    pub pool_hit: Option<bool>,
    pub base_prepared: bool,
    pub cloned: bool,
}

impl EphemeralRoot {
    pub open spec fn with_base(self) -> EphemeralRoot {
        EphemeralRoot {
            phase: if self.has_pool {
                EphemeralPhase::Leasing
            } else {
                EphemeralPhase::Cloning
            },
            ..self
        }
    }

    pub open spec fn after(self, event: EphemeralEvent) -> EphemeralRoot {
        match (self.phase, event) {
            (EphemeralPhase::LookingUp, EphemeralEvent::BaseFound) => self.with_base(),
            (EphemeralPhase::LookingUp, EphemeralEvent::BaseMissing) => EphemeralRoot {
                phase: EphemeralPhase::PreparingBase,
                ..self
            },
            (EphemeralPhase::PreparingBase, EphemeralEvent::BasePrepared) => EphemeralRoot {
                base_prepared: true,
                ..self.with_base()
            },
            (EphemeralPhase::Leasing, EphemeralEvent::Leased) => EphemeralRoot {
                phase: EphemeralPhase::Ready,
                pool_hit: Some(true),
                ..self
            },
            (EphemeralPhase::Leasing, EphemeralEvent::PoolEmpty) => EphemeralRoot {
                phase: EphemeralPhase::Cloning,
                pool_hit: Some(false),
                ..self
            },
            (EphemeralPhase::Cloning, EphemeralEvent::Cloned) => EphemeralRoot {
                phase: EphemeralPhase::Ready,
                cloned: true,
                ..self
            },
            _ => EphemeralRoot { phase: EphemeralPhase::Failed, ..self },
        }
    }

    /// What holds at every point: a disk comes from the pool or from a clone, never from both.
    pub open spec fn wf(self) -> bool {
        &&& !self.has_pool ==> self.pool_hit is None
        &&& !(self.pool_hit == Some(true) && self.cloned)
        &&& match self.phase {
            EphemeralPhase::LookingUp | EphemeralPhase::PreparingBase => self.pool_hit is None
                && !self.cloned,
            EphemeralPhase::Leasing => self.has_pool && self.pool_hit is None && !self.cloned,
            EphemeralPhase::Cloning => !self.cloned && self.pool_hit != Some(true)
                && self.has_pool == (self.pool_hit is Some),
            EphemeralPhase::Ready => self.cloned != (self.pool_hit == Some(true)) && self.has_pool
                == (self.pool_hit is Some),
            EphemeralPhase::Failed => true,
        }
    }

    /// Begins the preparation, which needs an image-backed source.
    pub fn begin(has_source: bool, has_pool: bool) -> (begun: Result<EphemeralRoot, BackendError>)
        ensures
            match begun {
                Ok(root) => has_source && root.wf() && root == (EphemeralRoot {
                    phase: EphemeralPhase::LookingUp,
                    has_pool,
                    pool_hit: None,
                    base_prepared: false,
                    cloned: false,
                }),
                Err(error) => !has_source && error@ == BackendErrorView::Control(
                    "ephemeral native run requires an image-backed Box root source"@,
                ),
            },
    {
        if !has_source {
            return Err(
                BackendError::Control(
                    "ephemeral native run requires an image-backed Box root source".to_owned(),
                ),
            );
        }
        Ok(
            EphemeralRoot {
                phase: EphemeralPhase::LookingUp,
                has_pool,
                pool_hit: None,
                base_prepared: false,
                cloned: false,
            },
        )
    }

    /// Takes an event; the new phase says what is to be done next.
    pub fn step(&mut self, event: EphemeralEvent)
        requires
            old(self).wf(),
        ensures
            final(self).wf(),
            *final(self) == old(self).after(event),
    {
        let with_base: EphemeralPhase = if self.has_pool {
            EphemeralPhase::Leasing
        } else {
            EphemeralPhase::Cloning
        };
        match (self.phase, event) {
            (EphemeralPhase::LookingUp, EphemeralEvent::BaseFound) => {
                self.phase = with_base;
            },
            (EphemeralPhase::LookingUp, EphemeralEvent::BaseMissing) => {
                self.phase = EphemeralPhase::PreparingBase;
            },
            (EphemeralPhase::PreparingBase, EphemeralEvent::BasePrepared) => {
                self.phase = with_base;
                self.base_prepared = true;
            },
            (EphemeralPhase::Leasing, EphemeralEvent::Leased) => {
                self.phase = EphemeralPhase::Ready;
                self.pool_hit = Some(true);
            },
            (EphemeralPhase::Leasing, EphemeralEvent::PoolEmpty) => {
                self.phase = EphemeralPhase::Cloning;
                self.pool_hit = Some(false);
            },
            (EphemeralPhase::Cloning, EphemeralEvent::Cloned) => {
                self.phase = EphemeralPhase::Ready;
                self.cloned = true;
            },
            _ => {
                self.phase = EphemeralPhase::Failed;
            },
        }
    }

    /// Whether the pool is to be filled up again, which a run does once its own root is ready.
    pub fn replenishes(&self) -> (replenishes: bool)
        ensures
            replenishes == (self.has_pool && self.phase == EphemeralPhase::Ready),
    {
        self.has_pool && self.phase == EphemeralPhase::Ready
    }
}

/// A run gets exactly one disk: the pool's, which no clone follows, or a clone.
pub proof fn law_one_disk_per_run(root: EphemeralRoot, event: EphemeralEvent)
    requires
        root.wf(),
    ensures
        root.after(event).wf(),
        root.after(event).phase == EphemeralPhase::Ready ==> root.after(event).cloned != (
        root.after(event).pool_hit == Some(true)),
{
}

/// The exit codes with which the file system check has left a sound disk.
pub open spec fn repaired(code: Option<i32>) -> bool {
    code == Some(0i32) || code == Some(1i32)
}

/// An exit code as it stands in messages.
pub open spec fn code_text(code: Option<i32>) -> Seq<char> {
    match code {
        None => "None"@,
        Some(number) => "Some("@ + crate::text::signed_text(number as int) + ")"@,
    }
}

pub fn write_code(code: Option<i32>) -> (text: String)
    ensures
        text@ == code_text(code),
{
    match code {
        None => "None".to_owned(),
        Some(number) => join3("Some(", signed_decimal(number).as_str(), ")"),
    }
}

/// What came of the repair of a box.
pub fn repair_outcome(box_id: &str, code: Option<i32>, stderr: &[u8]) -> (outcome: Result<
    (),
    BackendError,
>)
    ensures
        match outcome {
            Ok(()) => repaired(code),
            Err(error) => !repaired(code) && error@ == BackendErrorView::Control(
                "e2fsck could not repair Box "@ + box_id@ + (" (status "@ + code_text(code) + ("): "@
                    + crate::text::trim_of(crate::text::lossy_text(stderr@)))),
            ),
        },
{
    if code == Some(0) || code == Some(1) {
        return Ok(());
    }
    let written = from_utf8_lossy(stderr);
    let tail = join("): ", trim(written.as_str()).as_str());
    let status = join3(" (status ", write_code(code).as_str(), tail.as_str());
    Err(BackendError::Control(join3("e2fsck could not repair Box ", box_id, status.as_str())))
}

/// The error of a dirty box whose check cannot be run.
pub fn missing_checker(box_id: &str, e2fsck: &str) -> (error: BackendError)
    ensures
        error@ == BackendErrorView::Control(
            "dirty Box "@ + box_id@ + (" requires e2fsck, but it was not found at "@ + e2fsck@),
        ),
{
    BackendError::Control(
        join3(
            "dirty Box ",
            box_id,
            join(" requires e2fsck, but it was not found at ", e2fsck).as_str(),
        ),
    )
}

} // verus!
