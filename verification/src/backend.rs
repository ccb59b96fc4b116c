//! What a backend is and can do, and how it fails.

use vstd::prelude::*;

use crate::budget::{RunBudgetTimeout, RunStage, StageError};
use crate::text::{join, join3};
use crate::time::Duration;

verus! {

#[derive(Debug, Clone, Copy, PartialEq, Eq, Structural)]
pub enum Signal {
    Interrupt,
    Terminate,
    Kill,
    Hangup,
}

#[derive(Debug, Clone, Copy, PartialEq, Eq, Structural)]
pub enum OutputChannel {
    Stdout,
    Stderr,
    Tty,
}

#[derive(Debug, Clone, Copy, PartialEq, Eq, Structural)]
pub enum EnvironmentComponent {
    Name,
    Value,
}

impl EnvironmentComponent {
    pub open spec fn label_spec(self) -> Seq<char> {
        match self {
            EnvironmentComponent::Name => "name"@,
            EnvironmentComponent::Value => "value"@,
        }
    }

    pub fn label(&self) -> (text: &'static str)
        ensures
            text@ == self.label_spec(),
    {
        match self {
            EnvironmentComponent::Name => "name",
            EnvironmentComponent::Value => "value",
        }
    }
}

#[derive(Debug, Clone, Copy, PartialEq, Eq, Structural)]
pub enum IsolationLevel {
    HostProcess,
    MicroVm,
}

#[derive(Debug, Clone, Copy, PartialEq, Eq, Structural)]
pub enum CapabilitySupport {
    Unsupported,
    Supported,
}

impl CapabilitySupport {
    pub fn is_supported(self) -> (supported: bool)
        ensures
            supported == (self is Supported),
    {
        matches!(self, CapabilitySupport::Supported)
    }
}

#[derive(Debug, Clone, Copy, PartialEq, Eq, Structural)]
pub struct BackendCapabilities {
    pub isolation: IsolationLevel,
    pub tty: CapabilitySupport,
    pub network: CapabilitySupport,
    pub box_persistence: CapabilitySupport,
    pub workspace: CapabilitySupport,
}

#[derive(Debug, Clone, Copy, PartialEq, Eq, Structural)]
pub enum RootMode {
    Directory,
    StaticDisk,
    Ephemeral,
    Persistent,
}

/// What is known of how a sandbox was started; nothing is, by default.
#[derive(Debug, Default)]
pub struct StartupMetrics {
    pub resolved_image_digest: Option<String>,
    pub root_mode: Option<RootMode>,
    pub prepared_pool_hit: Option<bool>,
    pub prepared_lease_micros: Option<u64>,
    pub network_setup_micros: Option<u64>,
    pub root_prepare_micros: Option<u64>,
    pub cache_lookup_micros: Option<u64>,
    pub box_lock_micros: Option<u64>,
    pub base_prepare_micros: Option<u64>,
    pub disk_clone_micros: Option<u64>,
    pub repair_micros: Option<u64>,
    pub helper_spawn_micros: Option<u64>,
}

/// A kind of sandbox.
pub trait Backend {
    spec fn name_spec(&self) -> Seq<char>;

    spec fn capabilities_spec(&self) -> BackendCapabilities;

    fn name(&self) -> (name: &'static str)
        ensures
            name@ == self.name_spec(),
    ;

    fn capabilities(&self) -> (capabilities: BackendCapabilities)
        ensures
            capabilities == self.capabilities_spec(),
    ;
}

#[derive(Debug)]
pub enum BackendError {
    InvalidSpec(String),
    Unsupported(String),
    MissingProcessId,
    Io(String),
    Control(String),
    ImagePreparation(String),
    Timeout { stage: RunStage, limit: Duration },
    NonUnicodeEnvironment { variable: String, component: EnvironmentComponent },
}

pub enum BackendErrorView {
    InvalidSpec(Seq<char>),
    Unsupported(Seq<char>),
    MissingProcessId,
    Io(Seq<char>),
    Control(Seq<char>),
    ImagePreparation(Seq<char>),
    Timeout { stage: RunStage, limit: int },
    NonUnicodeEnvironment { variable: Seq<char>, component: EnvironmentComponent },
}

impl View for BackendError {
    type V = BackendErrorView;

    open spec fn view(&self) -> BackendErrorView {
        match *self {
            BackendError::InvalidSpec(text) => BackendErrorView::InvalidSpec(text@),
            BackendError::Unsupported(text) => BackendErrorView::Unsupported(text@),
            BackendError::MissingProcessId => BackendErrorView::MissingProcessId,
            BackendError::Io(text) => BackendErrorView::Io(text@),
            BackendError::Control(text) => BackendErrorView::Control(text@),
            BackendError::ImagePreparation(text) => BackendErrorView::ImagePreparation(text@),
            BackendError::Timeout { stage, limit } => BackendErrorView::Timeout {
                stage,
                limit: limit@,
            },
            BackendError::NonUnicodeEnvironment { variable, component } => {
                BackendErrorView::NonUnicodeEnvironment { variable: variable@, component }
            },
        }
    }
}

/// The message of a stage that ran out of time.
pub open spec fn timeout_text(stage: RunStage, limit: int) -> Seq<char> {
    "run timed out after "@ + crate::time::span_text(limit) + (" during "@ + stage.label_spec())
}

impl BackendErrorView {
    pub open spec fn text(self) -> Seq<char> {
        match self {
            BackendErrorView::InvalidSpec(text) => "invalid run specification: "@ + text,
            BackendErrorView::Unsupported(text) => "backend does not support "@ + text,
            BackendErrorView::MissingProcessId => "backend process has no process id"@,
            BackendErrorView::Io(text) => "backend I/O failed: "@ + text,
            BackendErrorView::Control(text) => "backend control failed: "@ + text,
            BackendErrorView::ImagePreparation(text) => "image preparation failed: "@ + text,
            BackendErrorView::Timeout { stage, limit } => timeout_text(stage, limit),
            BackendErrorView::NonUnicodeEnvironment { variable, component } => {
                "host environment "@ + component.label_spec() + (" for "@ + variable
                    + " is not valid Unicode"@)
            },
        }
    }
}

impl RunBudgetTimeout {
    pub fn message(&self) -> (text: String)
        ensures
            text@ == timeout_text(self.stage, self.limit@),
    {
        join3(
            "run timed out after ",
            self.limit.text().as_str(),
            join(" during ", self.stage.label()).as_str(),
        )
    }
}

impl BackendError {
    pub fn message(&self) -> (text: String)
        ensures
            text@ == self@.text(),
    {
        match self {
            BackendError::InvalidSpec(text) => join("invalid run specification: ", text.as_str()),
            BackendError::Unsupported(text) => join("backend does not support ", text.as_str()),
            BackendError::MissingProcessId => "backend process has no process id".to_owned(),
            BackendError::Io(text) => join("backend I/O failed: ", text.as_str()),
            BackendError::Control(text) => join("backend control failed: ", text.as_str()),
            BackendError::ImagePreparation(text) => join(
                "image preparation failed: ",
                text.as_str(),
            ),
            BackendError::Timeout { stage, limit } => RunBudgetTimeout {
                stage: *stage,
                limit: *limit,
            }.message(),
            BackendError::NonUnicodeEnvironment { variable, component } => join3(
                "host environment ",
                component.label(),
                join3(" for ", variable.as_str(), " is not valid Unicode").as_str(),
            ),
        }
    }

    /// The error of a stage, whose own failure is given in words.
    pub fn from_stage(error: StageError<String>) -> (converted: BackendError)
        ensures
            match error {
                StageError::Timeout(timeout) => converted@ == (BackendErrorView::Timeout {
                    stage: timeout.stage,
                    limit: timeout.limit@,
                }),
                StageError::Failed { stage, source } => converted@ == BackendErrorView::Control(
                    stage.label_spec() + " failed: "@ + source@,
                ),
            },
    {
        match error {
            StageError::Timeout(timeout) => BackendError::Timeout {
                stage: timeout.stage,
                limit: timeout.limit,
            },
            StageError::Failed { stage, source } => BackendError::Control(
                join3(stage.label(), " failed: ", source.as_str()),
            ),
        }
    }
}

} // verus!
