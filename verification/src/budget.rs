//! The time that a run may take, shared by all of its stages.
//!
//! Points in time are spans since an arbitrary origin of the caller's monotonic clock.

use vstd::prelude::*;

use crate::time::Duration;

verus! {

#[derive(Debug, Clone, Copy, PartialEq, Eq, Structural)]
pub enum RunStage {
    ImagePull,
    WorkspacePrepare,
    ProcessSpawn,
    NetworkSetup,
    RootPrepare,
    BoxLock,
    BoxRepair,
    CacheLookup,
    BaseDiskPrepare,
    EphemeralDiskClone,
    HelperSpawn,
    CommandRun,
}

impl RunStage {
    pub open spec fn label_spec(self) -> Seq<char> {
        match self {
            RunStage::ImagePull => "image_pull"@,
            RunStage::WorkspacePrepare => "workspace_prepare"@,
            RunStage::ProcessSpawn => "process_spawn"@,
            RunStage::NetworkSetup => "network_setup"@,
            RunStage::RootPrepare => "root_prepare"@,
            RunStage::BoxLock => "box_lock"@,
            RunStage::BoxRepair => "box_repair"@,
            RunStage::CacheLookup => "cache_lookup"@,
            RunStage::BaseDiskPrepare => "base_disk_prepare"@,
            RunStage::EphemeralDiskClone => "ephemeral_disk_clone"@,
            RunStage::HelperSpawn => "helper_spawn"@,
            RunStage::CommandRun => "command_run"@,
        }
    }

    /// The stage's name in messages.
    pub fn label(&self) -> (text: &'static str)
        ensures
            text@ == self.label_spec(),
    {
        match self {
            RunStage::ImagePull => "image_pull",
            RunStage::WorkspacePrepare => "workspace_prepare",
            RunStage::ProcessSpawn => "process_spawn",
            RunStage::NetworkSetup => "network_setup",
            RunStage::RootPrepare => "root_prepare",
            RunStage::BoxLock => "box_lock",
            RunStage::BoxRepair => "box_repair",
            RunStage::CacheLookup => "cache_lookup",
            RunStage::BaseDiskPrepare => "base_disk_prepare",
            RunStage::EphemeralDiskClone => "ephemeral_disk_clone",
            RunStage::HelperSpawn => "helper_spawn",
            RunStage::CommandRun => "command_run",
        }
    }
}

#[derive(Debug, Clone, Copy, PartialEq, Eq, Structural)]
pub struct StageTiming {
    pub stage: RunStage,
    pub elapsed_micros: u64,
}

#[derive(Debug, Clone, Copy, PartialEq, Eq, Structural)]
pub enum StageEventKind {
    Started,
    Completed,
    Failed,
}

#[derive(Debug, Clone, Copy, PartialEq, Eq, Structural)]
pub struct StageEvent {
    pub kind: StageEventKind,
    pub stage: RunStage,
    pub elapsed_micros: u64,
}

/// How long a run may take.
#[derive(Debug, Clone, Copy, PartialEq, Eq, Structural)]
pub enum TimeoutPolicy {
    Unlimited,
    /// A limit in milliseconds.
    Limited(u64),
}

#[derive(Debug, Clone, Copy, PartialEq, Eq, Structural)]
pub struct RunBudgetTimeout {
    pub stage: RunStage,
    pub limit: Duration,
}

/// A stage ran out of time, or failed by itself.
#[derive(Debug)]
pub enum StageError<E> {
    Timeout(RunBudgetTimeout),
    Failed { stage: RunStage, source: E },
}

/// A span in whole microseconds, at most `u64::MAX` of them.
pub open spec fn micros_spec(nanos: int) -> u64 {
    if nanos / 1000 <= u64::MAX {
        (nanos / 1000) as u64
    } else {
        u64::MAX
    }
}

pub fn duration_micros(span: Duration) -> (micros: u64)
    ensures
        micros == micros_spec(span@),
{
    let wide: u128 = span.as_nanos() / 1000;
    if wide <= 0xffff_ffff_ffff_ffff {
        wide as u64
    } else {
        0xffff_ffff_ffff_ffff
    }
}

pub open spec fn left_view(left: Result<Option<Duration>, RunBudgetTimeout>) -> Result<
    Option<int>,
    (RunStage, int),
> {
    match left {
        Ok(Some(span)) => Ok(Some(span@)),
        Ok(None) => Ok(None),
        Err(error) => Err((error.stage, error.limit@)),
    }
}

/// The time between two points, zero where the second one is earlier.
pub open spec fn elapsed_spec(from: int, now: int) -> int {
    if now >= from {
        now - from
    } else {
        0
    }
}

/// A deadline that all stages share, and what has been recorded of them.
pub struct RunBudget {
    started: Duration,
    deadline: Option<Duration>,
    limit: Option<Duration>,
    timings: Vec<StageTiming>,
    events: Vec<StageEvent>,
    failure_stage: Option<RunStage>,
    progress: Option<Vec<RunStage>>,
}

#[verifier::ext_equal]
pub struct BudgetView {
    pub started: int,
    pub deadline: Option<int>,
    pub limit: Option<int>,
    pub timings: Seq<StageTiming>,
    pub events: Seq<StageEvent>,
    pub failure_stage: Option<RunStage>,
    pub progress: Option<Seq<RunStage>>,
}

impl View for RunBudget {
    type V = BudgetView;

    closed spec fn view(&self) -> BudgetView {
        BudgetView {
            started: self.started@,
            deadline: match self.deadline {
                Some(point) => Some(point@),
                None => None,
            },
            limit: match self.limit {
                Some(span) => Some(span@),
                None => None,
            },
            timings: self.timings@,
            events: self.events@,
            failure_stage: self.failure_stage,
            progress: match self.progress {
                Some(stages) => Some(stages@),
                None => None,
            },
        }
    }
}

impl BudgetView {
    /// A budget that begins now.
    pub open spec fn begun(policy: TimeoutPolicy, now: int) -> BudgetView {
        let limit = match policy {
            TimeoutPolicy::Unlimited => None,
            TimeoutPolicy::Limited(millis) => Some(millis * crate::time::NANOS_PER_MILLI),
        };
        BudgetView {
            started: now,
            deadline: match limit {
                Some(span) => Some(crate::time::saturating_nanos(now, span)),
                None => None,
            },
            limit,
            timings: Seq::empty(),
            events: Seq::empty(),
            failure_stage: None,
            progress: None,
        }
    }

    /// The time that is left, without a limit none; an error once the deadline has come.
    pub open spec fn left(self, stage: RunStage, now: int) -> Result<Option<int>, (RunStage, int)> {
        match self.deadline {
            None => Ok(None),
            Some(deadline) => if now < deadline {
                Ok(Some(deadline - now))
            } else {
                Err((stage, self.limit->0))
            },
        }
    }

    /// A deadline exists exactly where there is a limit.
    pub open spec fn consistent(self) -> bool {
        self.deadline is Some == self.limit is Some
    }

    /// Whether the deadline has come.
    pub open spec fn is_over(self, now: int) -> bool {
        self.deadline matches Some(deadline) && now >= deadline
    }

    pub open spec fn timeout_error(self, stage: RunStage) -> (RunStage, int) {
        (stage, self.limit->0)
    }

    /// The first stage that failed stays the one that is named.
    pub open spec fn with_failure(self, stage: RunStage) -> BudgetView {
        BudgetView {
            failure_stage: match self.failure_stage {
                Some(first) => Some(first),
                None => Some(stage),
            },
            ..self
        }
    }

    pub open spec fn with_event(self, kind: StageEventKind, stage: RunStage, now: int) -> BudgetView {
        BudgetView {
            events: self.events.push(
                StageEvent { kind, stage, elapsed_micros: micros_spec(elapsed_spec(self.started, now)) },
            ),
            progress: match (kind, self.progress) {
                (StageEventKind::Started, Some(stages)) => Some(stages.push(stage)),
                _ => self.progress,
            },
            ..self
        }
    }

    pub open spec fn with_timing(self, stage: RunStage, began: int, now: int) -> BudgetView {
        BudgetView {
            timings: self.timings.push(
                StageTiming { stage, elapsed_micros: micros_spec(elapsed_spec(began, now)) },
            ),
            ..self
        }
    }

    pub open spec fn completed(self, stage: RunStage, began: int, now: int) -> BudgetView {
        self.with_timing(stage, began, now).with_event(StageEventKind::Completed, stage, now)
    }

    pub open spec fn failed(self, stage: RunStage, began: int, now: int) -> BudgetView {
        self.with_timing(stage, began, now).with_failure(stage).with_event(
            StageEventKind::Failed,
            stage,
            now,
        )
    }
}

impl RunBudget {
    pub open spec fn wf(self) -> bool {
        self@.consistent()
    }

    /// A budget that begins now.
    pub fn new(policy: TimeoutPolicy, now: Duration) -> (budget: RunBudget)
        ensures
            budget.wf(),
            budget@ == BudgetView::begun(policy, now@),
            budget@ == (BudgetView {
                started: now@,
                deadline: match policy {
                    TimeoutPolicy::Unlimited => None,
                    TimeoutPolicy::Limited(millis) => Some(
                        crate::time::saturating_nanos(
                            now@,
                            millis * crate::time::NANOS_PER_MILLI,
                        ),
                    ),
                },
                limit: match policy {
                    TimeoutPolicy::Unlimited => None,
                    TimeoutPolicy::Limited(millis) => Some(millis * crate::time::NANOS_PER_MILLI),
                },
                timings: Seq::empty(),
                events: Seq::empty(),
                failure_stage: None,
                progress: None,
            }),
    {
        let limit: Option<Duration> = match policy {
            TimeoutPolicy::Unlimited => None,
            TimeoutPolicy::Limited(millis) => Some(Duration::from_millis(millis)),
        };
        let deadline: Option<Duration> = match limit {
            Some(span) => Some(now.saturating_add(span)),
            None => None,
        };
        RunBudget {
            started: now,
            deadline,
            limit,
            timings: Vec::new(),
            events: Vec::new(),
            failure_stage: None,
            progress: None,
        }
    }

    /// The same budget, which from here on lists every stage as it starts.
    pub fn with_progress(self) -> (budget: RunBudget)
        ensures
            budget@ == (BudgetView { progress: Some(Seq::empty()), ..self@ }),
    {
        let mut budget = self;
        budget.progress = Some(Vec::new());
        assert(budget@ =~= (BudgetView { progress: Some(Seq::empty()), ..self@ }));
        budget
    }

    /// Hands out the stages that have started since the last call.
    pub fn take_progress(&mut self) -> (stages: Vec<RunStage>)
        ensures
            match old(self)@.progress {
                Some(listed) => stages@ == listed && final(self)@ == (BudgetView {
                    progress: Some(Seq::empty()),
                    ..old(self)@
                }),
                None => stages@.len() == 0 && final(self)@ == old(self)@,
            },
    {
        match self.progress.take() {
            Some(stages) => {
                self.progress = Some(Vec::new());
                assert(self@ =~= (BudgetView { progress: Some(Seq::empty()), ..old(self)@ }));
                stages
            },
            None => {
                assert(self@ =~= old(self)@);
                Vec::new()
            },
        }
    }

    /// The time that is left: none is named where there is no limit.  A stage that finds the
    /// deadline passed is recorded as the failed one.
    pub fn remaining(&mut self, stage: RunStage, now: Duration) -> (left: Result<
        Option<Duration>,
        RunBudgetTimeout,
    >)
        requires
            old(self).wf(),
        ensures
            final(self).wf(),
            final(self)@ == old(self)@.after(BudgetStep::Asked { stage, now: now@ }),
            left_view(left) == old(self)@.left(stage, now@),
            match left {
                Ok(None) => old(self)@.deadline is None && final(self)@ == old(self)@,
                Ok(Some(span)) => {
                    &&& old(self)@.deadline is Some && !old(self)@.is_over(now@)
                    &&& span@ == old(self)@.deadline->0 - now@
                    &&& final(self)@ == old(self)@
                },
                Err(error) => {
                    &&& old(self)@.is_over(now@)
                    &&& error.stage == stage && old(self)@.limit == Some(error.limit@)
                    &&& final(self)@ == old(self)@.with_failure(stage)
                },
            },
    {
        let deadline = match self.deadline {
            Some(deadline) => deadline,
            None => {
                return Ok(None);
            },
        };
        if deadline.exceeds(&now) {
            return Ok(Some(deadline.saturating_sub(now)));
        }
        self.record_failure(stage);
        Err(self.timeout_error(stage))
    }

    /// Runs one stage.  The operation tells its outcome and the time at which it was done; an
    /// outcome that comes after the deadline is lost.  Nothing is known of the operation once the
    /// deadline has come, so it is not called then.
    pub fn run_sync<T, E, F: FnOnce() -> (Result<T, E>, Duration)>(
        &mut self,
        stage: RunStage,
        now: Duration,
        operation: F,
    ) -> (outcome: Result<T, StageError<E>>)
        requires
            old(self).wf(),
            !old(self)@.is_over(now@) ==> operation.requires(()),
        ensures
            final(self).wf(),
            old(self)@.is_over(now@) ==> {
                &&& outcome matches Err(StageError::Timeout(error)) && error.stage == stage
                    && old(self)@.limit == Some(error.limit@)
                &&& final(self)@ == old(self)@.with_failure(stage)
            },
            !old(self)@.is_over(now@) ==> exists|result: Result<T, E>, done: Duration|
                {
                    &&& #[trigger] operation.ensures((), (result, done))
                    &&& stage_outcome(
                        old(self)@,
                        final(self)@,
                        stage,
                        now@,
                        result,
                        done@,
                        outcome,
                    )
                },
    {
        match self.start_stage(stage, now) {
            Ok(_) => {},
            Err(error) => {
                return Err(StageError::Timeout(error));
            },
        }
        let (result, done) = operation();
        self.finish_stage(stage, now, result, done)
    }

    /// Starts a stage that is awaited elsewhere: the time that it may take.
    pub fn start_stage(&mut self, stage: RunStage, now: Duration) -> (left: Result<
        Option<Duration>,
        RunBudgetTimeout,
    >)
        requires
            old(self).wf(),
        ensures
            final(self).wf(),
            final(self)@ == old(self)@.after(BudgetStep::Started { stage, now: now@ }),
            left_view(left) == old(self)@.left(stage, now@),
            match left {
                Ok(span) => {
                    &&& !old(self)@.is_over(now@)
                    &&& span is Some == old(self)@.deadline is Some
                    &&& span is Some ==> span->0@ == old(self)@.deadline->0 - now@
                    &&& final(self)@ == old(self)@.with_event(StageEventKind::Started, stage, now@)
                },
                Err(error) => {
                    &&& old(self)@.is_over(now@)
                    &&& error.stage == stage && old(self)@.limit == Some(error.limit@)
                    &&& final(self)@ == old(self)@.with_failure(stage)
                },
            },
    {
        let left = self.remaining(stage, now);
        if left.is_ok() {
            self.record_event(StageEventKind::Started, stage, now);
        }
        left
    }

    /// Closes a stage that was awaited for no longer than it might take: `None` says that the time
    /// ran out first.
    pub fn finish_awaited<T, E>(
        &mut self,
        stage: RunStage,
        began: Duration,
        awaited: Option<Result<T, E>>,
        now: Duration,
    ) -> (outcome: Result<T, StageError<E>>)
        requires
            old(self).wf(),
            awaited is None ==> old(self)@.limit is Some,
        ensures
            final(self).wf(),
            match (awaited, outcome) {
                (Some(Ok(value)), Ok(given)) => given == value && final(self)@
                    == old(self)@.completed(stage, began@, now@),
                (
                    Some(Err(source)),
                    Err(StageError::Failed { stage: named, source: given }),
                ) => {
                    &&& named == stage && given == source
                    &&& final(self)@ == old(self)@.failed(stage, began@, now@)
                },
                (None, Err(StageError::Timeout(error))) => {
                    &&& error.stage == stage && old(self)@.limit == Some(error.limit@)
                    &&& final(self)@ == old(self)@.failed(stage, began@, now@)
                },
                _ => false,
            },
    {
        match awaited {
            Some(result) => self.finish_result(stage, began, result, now),
            None => {
                self.record_stage_failure(stage, began, now);
                Err(StageError::Timeout(self.timeout_error(stage)))
            },
        }
    }

    /// Closes a stage that began at `began` with its result at `done`.
    pub fn finish_stage<T, E>(
        &mut self,
        stage: RunStage,
        began: Duration,
        result: Result<T, E>,
        done: Duration,
    ) -> (outcome: Result<T, StageError<E>>)
        requires
            old(self).wf(),
        ensures
            final(self).wf(),
            stage_closed(old(self)@, final(self)@, stage, began@, result, done@, outcome),
    {
        let over: bool = match self.deadline {
            Some(deadline) => !deadline.exceeds(&done),
            None => false,
        };
        if over {
            self.record_stage_failure(stage, began, done);
            return Err(StageError::Timeout(self.timeout_error(stage)));
        }
        self.finish_result(stage, began, result, done)
    }

    /// Closes a stage by its result, whatever the deadline says.
    pub fn finish_result<T, E>(
        &mut self,
        stage: RunStage,
        began: Duration,
        result: Result<T, E>,
        now: Duration,
    ) -> (outcome: Result<T, StageError<E>>)
        requires
            old(self).wf(),
        ensures
            final(self).wf(),
            match (result, outcome) {
                (Ok(value), Ok(given)) => given == value && final(self)@ == old(self)@.completed(
                    stage,
                    began@,
                    now@,
                ),
                (Err(source), Err(StageError::Failed { stage: named, source: given })) => {
                    &&& named == stage && given == source
                    &&& final(self)@ == old(self)@.failed(stage, began@, now@)
                },
                _ => false,
            },
    {
        match result {
            Ok(value) => {
                self.complete_stage(stage, began, now);
                Ok(value)
            },
            Err(source) => {
                self.record_stage_failure(stage, began, now);
                Err(StageError::Failed { stage, source })
            },
        }
    }

    /// What has been recorded of the stages that are over.
    pub fn timings(&self) -> (timings: Vec<StageTiming>)
        ensures
            timings@ == self@.timings,
    {
        let mut timings: Vec<StageTiming> = Vec::new();
        let mut i: usize = 0;
        while i < self.timings.len()
            invariant
                i <= self.timings@.len(),
                timings@ == self.timings@.subrange(0, i as int),
            decreases self.timings@.len() - i,
        {
            timings.push(self.timings[i]);
            i += 1;
            assert(timings@ =~= self.timings@.subrange(0, i as int));
        }
        assert(timings@ =~= self@.timings);
        timings
    }

    /// The first stage that failed.
    pub fn failure_stage(&self) -> (stage: Option<RunStage>)
        ensures
            stage == self@.failure_stage,
    {
        self.failure_stage
    }

    pub fn started(&self) -> (point: Duration)
        ensures
            point@ == self@.started,
    {
        self.started
    }

    pub fn events(&self) -> (events: Vec<StageEvent>)
        ensures
            events@ == self@.events,
    {
        let mut events: Vec<StageEvent> = Vec::new();
        let mut i: usize = 0;
        while i < self.events.len()
            invariant
                i <= self.events@.len(),
                events@ == self.events@.subrange(0, i as int),
            decreases self.events@.len() - i,
        {
            events.push(self.events[i]);
            i += 1;
            assert(events@ =~= self.events@.subrange(0, i as int));
        }
        assert(events@ =~= self@.events);
        events
    }

    /// Begins a stage whose end is recorded by `complete_stage` or `fail_stage`.
    pub fn begin_stage(&mut self, stage: RunStage, now: Duration)
        ensures
            final(self)@ == old(self)@.with_event(StageEventKind::Started, stage, now@),
    {
        self.record_event(StageEventKind::Started, stage, now);
    }

    pub fn complete_stage(&mut self, stage: RunStage, began: Duration, now: Duration)
        ensures
            final(self)@ == old(self)@.completed(stage, began@, now@),
    {
        self.record_timing(stage, began, now);
        self.record_event(StageEventKind::Completed, stage, now);
    }

    pub fn fail_stage(&mut self, stage: RunStage, began: Duration, now: Duration)
        ensures
            final(self)@ == old(self)@.failed(stage, began@, now@),
    {
        self.record_stage_failure(stage, began, now);
    }

    fn record_stage_failure(&mut self, stage: RunStage, began: Duration, now: Duration)
        ensures
            final(self)@ == old(self)@.failed(stage, began@, now@),
    {
        self.record_timing(stage, began, now);
        self.record_failure(stage);
        self.record_event(StageEventKind::Failed, stage, now);
    }

    fn record_timing(&mut self, stage: RunStage, began: Duration, now: Duration)
        ensures
            final(self)@ == old(self)@.with_timing(stage, began@, now@),
    {
        let elapsed_micros: u64 = duration_micros(now.saturating_sub(began));
        self.timings.push(StageTiming { stage, elapsed_micros });
        assert(self@ =~= old(self)@.with_timing(stage, began@, now@));
    }

    fn record_failure(&mut self, stage: RunStage)
        ensures
            final(self)@ == old(self)@.with_failure(stage),
    {
        if self.failure_stage.is_none() {
            self.failure_stage = Some(stage);
        }
        assert(self@ =~= old(self)@.with_failure(stage));
    }

    fn record_event(&mut self, kind: StageEventKind, stage: RunStage, now: Duration)
        ensures
            final(self)@ == old(self)@.with_event(kind, stage, now@),
    {
        let elapsed_micros: u64 = duration_micros(now.saturating_sub(self.started));
        self.events.push(StageEvent { kind, stage, elapsed_micros });
        if kind == StageEventKind::Started {
            match self.progress.take() {
                Some(stages) => {
                    let mut stages = stages;
                    stages.push(stage);
                    self.progress = Some(stages);
                },
                None => {},
            }
        }
        assert(self@ =~= old(self)@.with_event(kind, stage, now@));
    }

    fn timeout_error(&self, stage: RunStage) -> (error: RunBudgetTimeout)
        requires
            self@.limit is Some,
        ensures
            error.stage == stage,
            self@.limit == Some(error.limit@),
    {
        let limit: Duration = match self.limit {
            Some(limit) => limit,
            None => Duration::zero(),
        };
        RunBudgetTimeout { stage, limit }
    }
}

/// How a stage that began at `began` is closed at `done`: over the deadline it has timed out,
/// whatever its result was.
pub open spec fn stage_closed<T, E>(
    before: BudgetView,
    after: BudgetView,
    stage: RunStage,
    began: int,
    result: Result<T, E>,
    done: int,
    outcome: Result<T, StageError<E>>,
) -> bool {
    if before.is_over(done) {
        &&& outcome matches Err(StageError::Timeout(error)) && error.stage == stage && before.limit
            == Some(error.limit@)
        &&& after == before.failed(stage, began, done)
    } else {
        match (result, outcome) {
            (Ok(value), Ok(given)) => given == value && after == before.completed(
                stage,
                began,
                done,
            ),
            (Err(source), Err(StageError::Failed { stage: named, source: given })) => {
                &&& named == stage && given == source
                &&& after == before.failed(stage, began, done)
            },
            _ => false,
        }
    }
}

/// The whole of a stage: its start is recorded, then it is closed.
pub open spec fn stage_outcome<T, E>(
    before: BudgetView,
    after: BudgetView,
    stage: RunStage,
    began: int,
    result: Result<T, E>,
    done: int,
    outcome: Result<T, StageError<E>>,
) -> bool {
    stage_closed(
        before.with_event(StageEventKind::Started, stage, began),
        after,
        stage,
        began,
        result,
        done,
        outcome,
    )
}

/// All stages share one deadline: whatever is recorded, it stays where it was.
pub proof fn law_stages_share_one_deadline(
    budget: BudgetView,
    stage: RunStage,
    began: int,
    done: int,
)
    ensures
        budget.with_event(StageEventKind::Started, stage, began).deadline == budget.deadline,
        budget.completed(stage, began, done).deadline == budget.deadline,
        budget.failed(stage, began, done).deadline == budget.deadline,
        budget.with_failure(stage).deadline == budget.deadline,
{
}

/// One step of a call on a budget.  The steps of several calls may come in between each other.
pub enum BudgetStep {
    /// The time that is left is asked for.
    Asked { stage: RunStage, now: int },
    /// A stage is to be started.
    Started { stage: RunStage, now: int },
    /// A stage that was started ends.
    Completed { stage: RunStage, began: int, now: int },
    /// A stage that was started fails, or its time runs out.
    Failed { stage: RunStage, began: int, now: int },
}

impl BudgetStep {
    pub open spec fn stage(self) -> RunStage {
        match self {
            BudgetStep::Asked { stage, .. } => stage,
            BudgetStep::Started { stage, .. } => stage,
            BudgetStep::Completed { stage, .. } => stage,
            BudgetStep::Failed { stage, .. } => stage,
        }
    }
}

impl BudgetView {
    /// The budget after a step: past the deadline, nothing is started.
    pub open spec fn after(self, step: BudgetStep) -> BudgetView {
        match step {
            BudgetStep::Asked { stage, now } => if self.is_over(now) {
                self.with_failure(stage)
            } else {
                self
            },
            BudgetStep::Started { stage, now } => if self.is_over(now) {
                self.with_failure(stage)
            } else {
                self.with_event(StageEventKind::Started, stage, now)
            },
            BudgetStep::Completed { stage, began, now } => self.completed(stage, began, now),
            BudgetStep::Failed { stage, began, now } => self.failed(stage, began, now),
        }
    }

    pub open spec fn after_all(self, steps: Seq<BudgetStep>) -> BudgetView
        decreases steps.len(),
    {
        if steps.len() == 0 {
            self
        } else {
            self.after_all(steps.drop_last()).after(steps.last())
        }
    }

    /// Whether a step is a failure: it comes past the deadline, or it says so itself.
    pub open spec fn fails(self, step: BudgetStep) -> bool {
        match step {
            BudgetStep::Asked { now, .. } => self.is_over(now),
            BudgetStep::Started { now, .. } => self.is_over(now),
            BudgetStep::Completed { .. } => false,
            BudgetStep::Failed { .. } => true,
        }
    }

    /// The stages that were started, each with the time at which it was.
    pub open spec fn starts(self, steps: Seq<BudgetStep>) -> Seq<(RunStage, int)>
        decreases steps.len(),
    {
        if steps.len() == 0 {
            Seq::empty()
        } else {
            let before = self.starts(steps.drop_last());
            match steps.last() {
                BudgetStep::Started { stage, now } if !self.is_over(now) => before.push(
                    (stage, now),
                ),
                _ => before,
            }
        }
    }
}

/// The stages that have ended, in that order, each with the times of its start and its end.
pub open spec fn ends(steps: Seq<BudgetStep>) -> Seq<(RunStage, int, int)>
    decreases steps.len(),
{
    if steps.len() == 0 {
        Seq::empty()
    } else {
        let before = ends(steps.drop_last());
        match steps.last() {
            BudgetStep::Completed { stage, began, now } => before.push((stage, began, now)),
            BudgetStep::Failed { stage, began, now } => before.push((stage, began, now)),
            _ => before,
        }
    }
}

/// The timings of stages that have ended.
pub open spec fn timings_of(ended: Seq<(RunStage, int, int)>) -> Seq<StageTiming> {
    ended.map_values(
        |end: (RunStage, int, int)|
            StageTiming { stage: end.0, elapsed_micros: micros_spec(elapsed_spec(end.1, end.2)) },
    )
}

/// Whether every stage that was started has ended, and no other.
pub open spec fn all_ended(budget: BudgetView, steps: Seq<BudgetStep>) -> bool {
    budget.starts(steps).to_multiset() == ends(steps).map_values(
        |end: (RunStage, int, int)| (end.0, end.1),
    ).to_multiset()
}

/// A stage that is run is started and then ends: in the time that is left it is these two steps,
/// and past the deadline it is refused with the first.
pub proof fn law_stage_is_its_steps<T, E>(
    before: BudgetView,
    after: BudgetView,
    stage: RunStage,
    began: int,
    result: Result<T, E>,
    done: int,
    outcome: Result<T, StageError<E>>,
)
    ensures
        !before.is_over(began) && stage_outcome(
            before,
            after,
            stage,
            began,
            result,
            done,
            outcome,
        ) ==> after == before.after_all(
            seq![
                BudgetStep::Started { stage, now: began },
                if outcome is Ok {
                    BudgetStep::Completed { stage, began, now: done }
                } else {
                    BudgetStep::Failed { stage, began, now: done }
                },
            ],
        ),
        before.is_over(began) ==> before.after_all(seq![BudgetStep::Started { stage, now: began }])
            == before.with_failure(stage),
{
    let start = BudgetStep::Started { stage, now: began };
    let end = if outcome is Ok {
        BudgetStep::Completed { stage, began, now: done }
    } else {
        BudgetStep::Failed { stage, began, now: done }
    };
    assert(seq![start].drop_last() =~= Seq::empty());
    assert(before.after_all(seq![start]) == before.after_all(Seq::empty()).after(start));
    assert(before.after_all(Seq::empty()) == before);
    assert(seq![start, end].drop_last() =~= seq![start]);
    assert(seq![start, end].last() == end);
}

proof fn lemma_deadline_stays(budget: BudgetView, steps: Seq<BudgetStep>)
    ensures
        budget.after_all(steps).deadline == budget.deadline,
        budget.after_all(steps).limit == budget.limit,
        budget.after_all(steps).started == budget.started,
    decreases steps.len(),
{
    if steps.len() > 0 {
        lemma_deadline_stays(budget, steps.drop_last());
    }
}

/// The stage that is named as the failed one is that of the first step that failed, whatever comes
/// after it; none is named as long as none failed.
pub proof fn law_first_failure_is_named(budget: BudgetView, steps: Seq<BudgetStep>)
    ensures
        budget.failure_stage is Some ==> budget.after_all(steps).failure_stage
            == budget.failure_stage,
        budget.failure_stage is None && (forall|i: int|
            0 <= i < steps.len() ==> !budget.fails(#[trigger] steps[i])) ==> budget.after_all(
            steps,
        ).failure_stage is None,
        forall|first: int|
            budget.failure_stage is None && 0 <= first < steps.len() && budget.fails(
                #[trigger] steps[first],
            ) && (forall|i: int| 0 <= i < first ==> !budget.fails(#[trigger] steps[i]))
                ==> budget.after_all(steps).failure_stage == Some(steps[first].stage()),
    decreases steps.len(),
{
    if steps.len() > 0 {
        let shorter = steps.drop_last();
        let last = steps.len() - 1;
        law_first_failure_is_named(budget, shorter);
        lemma_deadline_stays(budget, shorter);
        assert forall|i: int| 0 <= i < last implies #[trigger] shorter[i] == steps[i] by {}
        assert forall|first: int|
            budget.failure_stage is None && 0 <= first < steps.len() && budget.fails(
                #[trigger] steps[first],
            ) && (forall|i: int| 0 <= i < first ==> !budget.fails(
                #[trigger] steps[i],
            )) implies budget.after_all(steps).failure_stage == Some(steps[first].stage()) by {
            if first < last {
                assert(shorter[first] == steps[first]);
                assert(forall|i: int| 0 <= i < first ==> !budget.fails(#[trigger] shorter[i]));
            } else {
                assert(forall|i: int| 0 <= i < last ==> !budget.fails(#[trigger] shorter[i]));
            }
        }
        if forall|i: int| 0 <= i < steps.len() ==> !budget.fails(#[trigger] steps[i]) {
            assert(forall|i: int| 0 <= i < last ==> !budget.fails(#[trigger] shorter[i]));
            assert(!budget.fails(steps[last]));
        }
    }
}

/// There is one timing for each stage that has ended, in the order in which they did, and none for
/// one that was refused; so once all that were started have ended, there are as many as were.
pub proof fn law_each_started_stage_is_timed(budget: BudgetView, steps: Seq<BudgetStep>)
    ensures
        budget.after_all(steps).timings == budget.timings + timings_of(ends(steps)),
        all_ended(budget, steps) ==> budget.after_all(steps).timings.len() == budget.timings.len()
            + budget.starts(steps).len(),
    decreases steps.len(),
{
    if steps.len() > 0 {
        let shorter = steps.drop_last();
        law_each_started_stage_is_timed(budget, shorter);
        let before = ends(shorter);
        match steps.last() {
            BudgetStep::Completed { stage, began, now } | BudgetStep::Failed {
                stage,
                began,
                now,
            } => {
                assert(timings_of(before.push((stage, began, now))) =~= timings_of(before).push(
                    StageTiming {
                        stage,
                        elapsed_micros: micros_spec(elapsed_spec(began, now)),
                    },
                ));
            },
            _ => {},
        }
    }
    assert(budget.after_all(steps).timings =~= budget.timings + timings_of(ends(steps)));
    let ended = ends(steps).map_values(|end: (RunStage, int, int)| (end.0, end.1));
    ended.to_multiset_ensures();
    budget.starts(steps).to_multiset_ensures();
    assert(ended.to_multiset().len() == ended.len());
    assert(budget.starts(steps).to_multiset().len() == budget.starts(steps).len());
}

} // verus!
