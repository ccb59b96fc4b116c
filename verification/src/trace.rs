//! What happened in a run, and when.

use vstd::prelude::*;

use crate::budget::RunStage;

verus! {

#[derive(Debug, Clone, Copy, PartialEq, Eq, Structural)]
pub enum TraceKind {
    PrepareStarted,
    BackendSpawnStarted,
    BackendSpawned,
    CommandStarted,
    FirstOutput,
    Timeout,
    GracefulStop,
    ForcedStop,
    ProcessExited,
    CleanupComplete,
    StageStarted,
    StageCompleted,
    StageFailed,
}

#[derive(Debug, Clone, Copy, PartialEq, Eq, Structural)]
pub struct TraceEvent {
    pub sequence: u64,
    pub elapsed_micros: u64,
    pub kind: TraceKind,
    pub stage: Option<RunStage>,
}

} // verus!
