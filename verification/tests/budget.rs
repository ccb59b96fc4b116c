use moraebox::budget::{
    duration_micros, RunBudget, RunStage, StageError, StageEventKind, StageTiming, TimeoutPolicy,
};
use moraebox::time::Duration;

fn at(millis: u64) -> Duration {
    Duration::from_millis(millis)
}

#[test]
fn stages_share_one_deadline() {
    let mut budget = RunBudget::new(TimeoutPolicy::Limited(40), at(0));
    let left = budget.start_stage(RunStage::ImagePull, at(0)).unwrap();
    assert_eq!(left, Some(at(40)));
    budget
        .finish_awaited::<(), String>(RunStage::ImagePull, at(0), Some(Ok(())), at(25))
        .unwrap();

    let left = budget.start_stage(RunStage::CommandRun, at(25)).unwrap();
    assert_eq!(left, Some(at(15)));
    let error = budget
        .finish_awaited::<(), String>(RunStage::CommandRun, at(25), None, at(40))
        .unwrap_err();

    assert!(matches!(error, StageError::Timeout(timeout) if timeout.limit == at(40)));
    assert_eq!(budget.failure_stage(), Some(RunStage::CommandRun));
    assert_eq!(budget.timings().len(), 2);
}

#[test]
fn unlimited_budget_never_synthesizes_a_deadline() {
    let mut budget = RunBudget::new(TimeoutPolicy::Unlimited, at(0));
    assert_eq!(budget.remaining(RunStage::CommandRun, at(9)).unwrap(), None);
    assert_eq!(
        budget.start_stage(RunStage::CommandRun, at(9)).unwrap(),
        None
    );
    budget
        .finish_awaited::<(), String>(RunStage::CommandRun, at(9), Some(Ok(())), at(1_000_000))
        .unwrap();
    assert_eq!(budget.failure_stage(), None);
}

#[test]
fn progress_reports_each_started_stage_once() {
    let mut budget = RunBudget::new(TimeoutPolicy::Unlimited, at(0)).with_progress();

    budget.start_stage(RunStage::ImagePull, at(0)).unwrap();
    budget
        .finish_awaited::<(), String>(RunStage::ImagePull, at(0), Some(Ok(())), at(1))
        .unwrap();
    budget.start_stage(RunStage::HelperSpawn, at(1)).unwrap();
    budget
        .finish_stage::<(), String>(RunStage::HelperSpawn, at(1), Ok(()), at(2))
        .unwrap();

    assert_eq!(
        budget.take_progress(),
        vec![RunStage::ImagePull, RunStage::HelperSpawn]
    );
    assert!(budget.take_progress().is_empty());
}

#[test]
fn spent_budgets_start_nothing() {
    let mut budget = RunBudget::new(TimeoutPolicy::Limited(40), at(100));
    let timeout = budget
        .start_stage(RunStage::NetworkSetup, at(140))
        .unwrap_err();
    assert_eq!(timeout.stage, RunStage::NetworkSetup);
    assert_eq!(timeout.limit, at(40));
    assert_eq!(
        timeout.message(),
        "run timed out after 40ms during network_setup"
    );
    assert_eq!(budget.failure_stage(), Some(RunStage::NetworkSetup));
}

#[test]
fn failures_name_their_stage() {
    let mut budget = RunBudget::new(TimeoutPolicy::Limited(40), at(0));
    budget.start_stage(RunStage::BoxLock, at(0)).unwrap();
    let error = budget
        .finish_stage::<(), String>(RunStage::BoxLock, at(0), Err("held".to_owned()), at(3))
        .unwrap_err();
    assert!(matches!(
        error,
        StageError::Failed { stage: RunStage::BoxLock, source } if source == "held"
    ));
    assert_eq!(budget.failure_stage(), Some(RunStage::BoxLock));
    assert_eq!(
        budget.timings(),
        vec![StageTiming {
            stage: RunStage::BoxLock,
            elapsed_micros: 3000
        }]
    );
    let kinds: Vec<StageEventKind> = budget.events().iter().map(|event| event.kind).collect();
    assert_eq!(kinds, [StageEventKind::Started, StageEventKind::Failed]);
}

#[test]
fn late_results_are_timeouts() {
    let mut budget = RunBudget::new(TimeoutPolicy::Limited(40), at(0));
    budget.start_stage(RunStage::CacheLookup, at(0)).unwrap();
    assert!(matches!(
        budget.finish_stage::<(), String>(RunStage::CacheLookup, at(0), Ok(()), at(41)),
        Err(StageError::Timeout(_))
    ));
}

#[test]
fn spans_are_put_into_words() {
    assert_eq!(RunStage::EphemeralDiskClone.label(), "ephemeral_disk_clone");
    assert_eq!(duration_micros(at(3)), 3000);
    assert_eq!(duration_micros(Duration::from_secs(u64::MAX)), u64::MAX);
    assert_eq!(at(1500).text(), "1.5s");
    assert_eq!(at(20).text(), "20ms");
    assert_eq!(Duration::zero().text(), "0ns");
    assert_eq!(Duration::from_parts(1, 5).text(), "1.000000005s");
    assert_eq!(at(5).saturating_sub(at(9)), Duration::zero());
    assert_eq!(
        Duration::from_secs(u64::MAX).saturating_add(Duration::from_secs(1)),
        Duration::from_parts(u64::MAX, 999_999_999)
    );
    assert!(at(5).exceeds(&at(4)));
    assert!(!at(5).exceeds(&at(5)));
    assert_eq!(at(5).as_millis(), 5);
    assert_eq!(at(5999).as_secs(), 5);
    assert_eq!(Duration::from_parts(0, 7).as_nanos(), 7);
}

#[test]
fn nothing_is_run_once_the_deadline_has_come() {
    let mut budget = RunBudget::new(TimeoutPolicy::Limited(40), at(0)).with_progress();
    let mut called = false;
    let error = budget
        .run_sync::<(), String, _>(RunStage::HelperSpawn, at(40), || {
            called = true;
            (Ok(()), at(41))
        })
        .unwrap_err();
    assert!(matches!(
        error,
        StageError::Timeout(timeout)
            if timeout.stage == RunStage::HelperSpawn && timeout.limit == at(40)
    ));
    assert!(!called);
    assert!(budget.take_progress().is_empty());
    assert!(budget.timings().is_empty());
    assert_eq!(budget.failure_stage(), Some(RunStage::HelperSpawn));
}

#[test]
fn outcomes_of_stages_that_do_not_wait_are_kept_in_time() {
    let mut budget = RunBudget::new(TimeoutPolicy::Limited(40), at(0));
    let value = budget
        .run_sync::<u8, String, _>(RunStage::BoxLock, at(5), || (Ok(7), at(9)))
        .unwrap();
    assert_eq!(value, 7);
    assert_eq!(
        budget.timings(),
        vec![StageTiming {
            stage: RunStage::BoxLock,
            elapsed_micros: 4_000,
        }]
    );
    let late = budget
        .run_sync::<u8, String, _>(RunStage::ProcessSpawn, at(10), || (Ok(8), at(40)))
        .unwrap_err();
    assert!(matches!(late, StageError::Timeout(timeout) if timeout.limit == at(40)));
    assert_eq!(budget.failure_stage(), Some(RunStage::ProcessSpawn));
    let mut other = RunBudget::new(TimeoutPolicy::Unlimited, at(0));
    let failed = other
        .run_sync::<u8, String, _>(RunStage::BoxLock, at(1), || (Err("busy".to_owned()), at(2)))
        .unwrap_err();
    assert!(matches!(
        failed,
        StageError::Failed { stage: RunStage::BoxLock, source } if source == "busy"
    ));
}

#[test]
fn the_first_failure_is_named_and_each_started_stage_is_timed() {
    let mut budget = RunBudget::new(TimeoutPolicy::Limited(40), at(0));
    budget.start_stage(RunStage::ImagePull, at(0)).unwrap();
    budget.start_stage(RunStage::WorkspacePrepare, at(1)).unwrap();
    budget
        .finish_awaited::<(), String>(
            RunStage::WorkspacePrepare,
            at(1),
            Some(Err("broken".to_owned())),
            at(3),
        )
        .unwrap_err();
    budget
        .finish_awaited::<(), String>(RunStage::ImagePull, at(0), Some(Ok(())), at(4))
        .unwrap();
    budget
        .run_sync::<(), String, _>(RunStage::BoxLock, at(5), || (Ok(()), at(41)))
        .unwrap_err();
    budget.start_stage(RunStage::HelperSpawn, at(42)).unwrap_err();
    budget.remaining(RunStage::CommandRun, at(43)).unwrap_err();
    assert_eq!(budget.failure_stage(), Some(RunStage::WorkspacePrepare));
    let timings: Vec<(RunStage, u64)> = budget
        .timings()
        .into_iter()
        .map(|timing| (timing.stage, timing.elapsed_micros))
        .collect();
    assert_eq!(
        timings,
        [
            (RunStage::WorkspacePrepare, 2_000),
            (RunStage::ImagePull, 4_000),
            (RunStage::BoxLock, 36_000),
        ]
    );
}
