//! The start of a machine: its root, then its network, then its helper.

use vstd::prelude::*;

use crate::backend::{BackendError, BackendErrorView, OutputChannel, RootMode, StartupMetrics};
use crate::budget::{duration_micros, StageError};
use crate::libkrun::helper_spawn_error;
use crate::time::Duration;

verus! {

/// What is known of how a root was prepared.
#[derive(Debug, Clone, Copy, PartialEq, Eq, Structural)]
pub struct RootStartup {
    pub root_mode: RootMode,
    pub prepared_pool_hit: Option<bool>,
    pub prepared_lease_micros: Option<u64>,
    pub cache_lookup_micros: Option<u64>,
    pub box_lock_micros: Option<u64>,
    pub base_prepare_micros: Option<u64>,
    pub disk_clone_micros: Option<u64>,
    pub repair_micros: Option<u64>,
}

/// The error of a root that could not be prepared: the stage's own, or that the time ran out.
pub fn root_stage_error(error: StageError<BackendError>) -> (mapped: BackendError)
    ensures
        match error {
            StageError::Timeout(timeout) => mapped@ == (BackendErrorView::Timeout {
                stage: timeout.stage,
                limit: timeout.limit@,
            }),
            StageError::Failed { stage, source } => mapped == source,
        },
{
    match error {
        StageError::Timeout(timeout) => BackendError::Timeout {
            stage: timeout.stage,
            limit: timeout.limit,
        },
        StageError::Failed { stage: _, source } => source,
    }
}

#[derive(Debug, Clone, Copy, PartialEq, Eq, Structural)]
pub enum SpawnPhase {
    PreparingRoot,
    StartingNetwork,
    SpawningHelper,
    /// The helper could not be started, and its network is being taken down.
    ReapingNetwork,
    Over,
}

/// The start of a machine.
#[derive(Debug)]
pub struct SpawnRun {
    pub phase: SpawnPhase,
    /// Whether the machine is to have a network.
    pub network: bool,
    /// When the phase began.
    pub since: Duration,
    pub root: Option<RootStartup>,
    pub root_prepare_micros: Option<u64>,
    pub network_setup_micros: Option<u64>,
    pub error: Option<BackendError>,
}

#[verifier::ext_equal]
pub struct SpawnView {
    pub phase: SpawnPhase,
    pub network: bool,
    pub since: int,
    pub root: Option<RootStartup>,
    pub root_prepare_micros: Option<u64>,
    pub network_setup_micros: Option<u64>,
    pub error: Option<BackendErrorView>,
}

impl View for SpawnRun {
    type V = SpawnView;

    open spec fn view(&self) -> SpawnView {
        SpawnView {
            phase: self.phase,
            network: self.network,
            since: self.since@,
            root: self.root,
            root_prepare_micros: self.root_prepare_micros,
            network_setup_micros: self.network_setup_micros,
            error: match self.error {
                Some(error) => Some(error@),
                None => None,
            },
        }
    }
}

/// What happens to the start of a machine.
#[derive(Debug)]
pub enum SpawnEvent {
    RootReady(RootStartup),
    RootFailed(BackendError),
    NetworkReady,
    NetworkFailed(BackendError),
    HelperReady,
    HelperFailed(BackendError),
    /// The network was taken down, or could not be.
    NetworkReaped(Option<String>),
}

/// What is to be done next.
#[derive(Debug)]
pub enum SpawnAction {
    StartNetwork,
    SpawnHelper,
    ReapNetwork,
    Done(StartupMetrics),
    Fail(BackendError),
}

pub enum SpawnActionView {
    StartNetwork,
    SpawnHelper,
    ReapNetwork,
    Done(StartupMetrics),
    Fail(BackendErrorView),
}

impl View for SpawnAction {
    type V = SpawnActionView;

    open spec fn view(&self) -> SpawnActionView {
        match *self {
            SpawnAction::StartNetwork => SpawnActionView::StartNetwork,
            SpawnAction::SpawnHelper => SpawnActionView::SpawnHelper,
            SpawnAction::ReapNetwork => SpawnActionView::ReapNetwork,
            SpawnAction::Done(startup) => SpawnActionView::Done(startup),
            SpawnAction::Fail(error) => SpawnActionView::Fail(error@),
        }
    }
}

pub open spec fn micros_between(since: int, now: int) -> u64 {
    crate::budget::micros_spec(crate::budget::elapsed_spec(since, now))
}

impl SpawnView {
    pub open spec fn wf(self) -> bool {
        &&& self.phase == SpawnPhase::StartingNetwork ==> self.network
        &&& self.phase == SpawnPhase::ReapingNetwork ==> self.network && self.error is Some
        &&& self.phase == SpawnPhase::StartingNetwork || self.phase == SpawnPhase::SpawningHelper
            ==> self.root is Some
    }

    pub open spec fn expects(self, event: SpawnEvent) -> bool {
        match event {
            SpawnEvent::RootReady(_) | SpawnEvent::RootFailed(_) => self.phase
                == SpawnPhase::PreparingRoot,
            SpawnEvent::NetworkReady | SpawnEvent::NetworkFailed(_) => self.phase
                == SpawnPhase::StartingNetwork,
            SpawnEvent::HelperReady | SpawnEvent::HelperFailed(_) => self.phase
                == SpawnPhase::SpawningHelper,
            SpawnEvent::NetworkReaped(_) => self.phase == SpawnPhase::ReapingNetwork,
        }
    }

    pub open spec fn over(self) -> SpawnView {
        SpawnView { phase: SpawnPhase::Over, ..self }
    }

    /// What a finished start has to tell.
    pub open spec fn metrics(self, now: int) -> StartupMetrics {
        let root = self.root->0;
        StartupMetrics {
            resolved_image_digest: None,
            root_mode: Some(root.root_mode),
            prepared_pool_hit: root.prepared_pool_hit,
            prepared_lease_micros: root.prepared_lease_micros,
            network_setup_micros: self.network_setup_micros,
            root_prepare_micros: self.root_prepare_micros,
            cache_lookup_micros: root.cache_lookup_micros,
            box_lock_micros: root.box_lock_micros,
            base_prepare_micros: root.base_prepare_micros,
            disk_clone_micros: root.disk_clone_micros,
            repair_micros: root.repair_micros,
            helper_spawn_micros: Some(micros_between(self.since, now)),
        }
    }

    /// Where an event leads, and what is to be done.
    pub open spec fn after(self, event: SpawnEvent, now: int) -> (SpawnView, SpawnActionView) {
        match event {
            SpawnEvent::RootReady(root) => {
                let ready = SpawnView {
                    phase: if self.network {
                        SpawnPhase::StartingNetwork
                    } else {
                        SpawnPhase::SpawningHelper
                    },
                    since: now,
                    root: Some(root),
                    root_prepare_micros: Some(micros_between(self.since, now)),
                    ..self
                };
                if self.network {
                    (ready, SpawnActionView::StartNetwork)
                } else {
                    (ready, SpawnActionView::SpawnHelper)
                }
            },
            SpawnEvent::RootFailed(error) => (self.over(), SpawnActionView::Fail(error@)),
            SpawnEvent::NetworkReady => (
                SpawnView {
                    phase: SpawnPhase::SpawningHelper,
                    since: now,
                    network_setup_micros: Some(micros_between(self.since, now)),
                    ..self
                },
                SpawnActionView::SpawnHelper,
            ),
            SpawnEvent::NetworkFailed(error) => (self.over(), SpawnActionView::Fail(error@)),
            SpawnEvent::HelperReady => (
                self.over(),
                SpawnActionView::Done(self.metrics(now)),
            ),
            SpawnEvent::HelperFailed(error) => if self.network {
                (
                    SpawnView {
                        phase: SpawnPhase::ReapingNetwork,
                        error: Some(error@),
                        ..self
                    },
                    SpawnActionView::ReapNetwork,
                )
            } else {
                (self.over(), SpawnActionView::Fail(error@))
            },
            SpawnEvent::NetworkReaped(cleanup) => (
                SpawnView { error: None, ..self.over() },
                SpawnActionView::Fail(
                    crate::libkrun::spawn_error_of(self.error->0, crate::text::text_of(cleanup)),
                ),
            ),
        }
    }
}

impl SpawnRun {
    /// Begins the start of a machine with its root.
    pub fn begin(network: bool, now: Duration) -> (run: SpawnRun)
        ensures
            run@.wf(),
            run@ == (SpawnView {
                phase: SpawnPhase::PreparingRoot,
                network,
                since: now@,
                root: None,
                root_prepare_micros: None,
                network_setup_micros: None,
                error: None,
            }),
    {
        SpawnRun {
            phase: SpawnPhase::PreparingRoot,
            network,
            since: now,
            root: None,
            root_prepare_micros: None,
            network_setup_micros: None,
            error: None,
        }
    }

    /// Takes an event that belongs to the phase.
    pub fn step(&mut self, event: SpawnEvent, now: Duration) -> (action: SpawnAction)
        requires
            old(self)@.wf(),
            old(self)@.expects(event),
        ensures
            final(self)@.wf(),
            final(self)@ == old(self)@.after(event, now@).0,
            action@ == old(self)@.after(event, now@).1,
    {
        let elapsed: u64 = duration_micros(now.saturating_sub(self.since));
        match event {
            SpawnEvent::RootReady(root) => {
                self.since = now;
                self.root = Some(root);
                self.root_prepare_micros = Some(elapsed);
                if self.network {
                    self.phase = SpawnPhase::StartingNetwork;
                    SpawnAction::StartNetwork
                } else {
                    self.phase = SpawnPhase::SpawningHelper;
                    SpawnAction::SpawnHelper
                }
            },
            SpawnEvent::RootFailed(error) => {
                self.phase = SpawnPhase::Over;
                SpawnAction::Fail(error)
            },
            SpawnEvent::NetworkReady => {
                self.phase = SpawnPhase::SpawningHelper;
                self.since = now;
                self.network_setup_micros = Some(elapsed);
                SpawnAction::SpawnHelper
            },
            SpawnEvent::NetworkFailed(error) => {
                self.phase = SpawnPhase::Over;
                SpawnAction::Fail(error)
            },
            SpawnEvent::HelperReady => {
                self.phase = SpawnPhase::Over;
                let root: RootStartup = match self.root {
                    Some(root) => root,
                    None => RootStartup {
                        root_mode: RootMode::Directory,
                        prepared_pool_hit: None,
                        prepared_lease_micros: None,
                        cache_lookup_micros: None,
                        box_lock_micros: None,
                        base_prepare_micros: None,
                        disk_clone_micros: None,
                        repair_micros: None,
                    },
                };
                SpawnAction::Done(
                    StartupMetrics {
                        resolved_image_digest: None,
                        root_mode: Some(root.root_mode),
                        prepared_pool_hit: root.prepared_pool_hit,
                        prepared_lease_micros: root.prepared_lease_micros,
                        network_setup_micros: self.network_setup_micros,
                        root_prepare_micros: self.root_prepare_micros,
                        cache_lookup_micros: root.cache_lookup_micros,
                        box_lock_micros: root.box_lock_micros,
                        base_prepare_micros: root.base_prepare_micros,
                        disk_clone_micros: root.disk_clone_micros,
                        repair_micros: root.repair_micros,
                        helper_spawn_micros: Some(elapsed),
                    },
                )
            },
            SpawnEvent::HelperFailed(error) => {
                if self.network {
                    self.phase = SpawnPhase::ReapingNetwork;
                    self.error = Some(error);
                    SpawnAction::ReapNetwork
                } else {
                    self.phase = SpawnPhase::Over;
                    SpawnAction::Fail(error)
                }
            },
            SpawnEvent::NetworkReaped(cleanup) => {
                self.phase = SpawnPhase::Over;
                match self.error.take() {
                    Some(error) => SpawnAction::Fail(helper_spawn_error(error, cleanup)),
                    None => SpawnAction::Fail(BackendError::MissingProcessId),
                }
            },
        }
    }
}

/// The root is ready before the network is started: a root that cannot be prepared leaves no
/// network behind, and nothing starts a network but a root that is ready.
pub proof fn law_root_precedes_network(run: SpawnView, event: SpawnEvent, now: int)
    requires
        run.wf(),
        run.expects(event),
    ensures
        run.after(event, now).1 is StartNetwork ==> event is RootReady && run.network,
        event is RootFailed ==> run.after(event, now).1 is Fail,
        run.after(event, now).1 is SpawnHelper ==> run.after(event, now).0.root is Some,
{
}

/// A machine whose helper cannot be started does not keep its network: the start fails only after
/// the network was taken down.
pub proof fn law_failed_helper_reaps_its_network(run: SpawnView, event: SpawnEvent, now: int)
    requires
        run.wf(),
        run.expects(event),
        run.network,
        event is HelperFailed,
    ensures
        run.after(event, now).1 is ReapNetwork,
        forall|next: SpawnEvent, later: int|
            run.after(event, now).0.expects(next) ==> next is NetworkReaped && (
            #[trigger] run.after(event, now).0.after(next, later)).1 is Fail,
{
}

/// A machine that was not asked to have a network never gets one.
pub proof fn law_no_network_unless_asked(run: SpawnView, event: SpawnEvent, now: int)
    requires
        run.wf(),
        run.expects(event),
        !run.network,
    ensures
        !(run.after(event, now).1 is StartNetwork),
        !run.after(event, now).0.network,
{
}

/// How a helper is started and spoken to.
#[derive(Debug, Clone, Copy, PartialEq, Eq, Structural)]
pub enum HelperRoute {
    /// With a control pipe, through which the agent in the machine is reached.
    Protocol(OutputChannel),
    /// On a terminal.
    Pty,
    Piped,
}

/// How a helper is started.
pub open spec fn route_for(root_is_disk: bool, tty: bool) -> HelperRoute {
    if root_is_disk {
        HelperRoute::Protocol(
            if tty {
                OutputChannel::Tty
            } else {
                OutputChannel::Stdout
            },
        )
    } else if tty {
        HelperRoute::Pty
    } else {
        HelperRoute::Piped
    }
}

/// How a helper is started: a machine whose root is a disk has an agent; one whose root is a
/// directory runs its command on the helper's own terminal or pipes.
pub fn helper_route(root_is_disk: bool, tty: bool) -> (route: HelperRoute)
    ensures
        route == route_for(root_is_disk, tty),
        route == (if root_is_disk {
            HelperRoute::Protocol(
                if tty {
                    OutputChannel::Tty
                } else {
                    OutputChannel::Stdout
                },
            )
        } else if tty {
            HelperRoute::Pty
        } else {
            HelperRoute::Piped
        }),
{
    if root_is_disk {
        if tty {
            HelperRoute::Protocol(OutputChannel::Tty)
        } else {
            HelperRoute::Protocol(OutputChannel::Stdout)
        }
    } else if tty {
        HelperRoute::Pty
    } else {
        HelperRoute::Piped
    }
}

} // verus!
