use nbody_viewer::aggregate::{
    drain_outcomes, should_assemble, Aggregator, JobError, JobErrorKind, JobOutcome, JobSuccess,
};
use nbody_viewer::generate_jobs;

fn ok(index: usize) -> JobOutcome {
    Ok(JobSuccess { index, exit_code: Some(0) })
}

fn spawn_failure(detail: &str) -> JobError {
    JobError { kind: JobErrorKind::Spawn, detail: detail.to_string() }
}

#[test]
fn all_success_batch_allows_assembly() {
    let result = drain_outcomes(vec![ok(0), ok(1), ok(2)]);
    assert_eq!(result.completed, 3);
    assert_eq!(result.failed, None);
    assert!(should_assemble(&result));
}

#[test]
fn any_failure_blocks_assembly_but_still_drains() {
    let outcomes = vec![ok(0), Err(spawn_failure("no such program")), ok(2)];
    let result = drain_outcomes(outcomes);
    assert_eq!(result.completed, 2);
    assert_eq!(result.failed, Some(spawn_failure("no such program")));
    assert!(!should_assemble(&result));
}

#[test]
fn first_failure_is_the_one_reported() {
    let outcomes = vec![
        Err(spawn_failure("first")),
        ok(1),
        Err(JobError { kind: JobErrorKind::Wait, detail: "second".to_string() }),
    ];
    let result = drain_outcomes(outcomes);
    assert_eq!(result.completed, 1);
    assert_eq!(result.failed, Some(spawn_failure("first")));
}

#[test]
fn completion_order_does_not_matter() {
    let forward = drain_outcomes(vec![ok(0), ok(1), ok(2)]);
    let scrambled = drain_outcomes(vec![ok(2), ok(0), ok(1)]);
    assert_eq!(forward.completed, scrambled.completed);
    assert_eq!(forward.failed, scrambled.failed);
}

#[test]
fn incremental_aggregator_drains_exactly_the_expected_count() {
    let mut agg = Aggregator::new(3);
    assert!(!agg.is_done());
    agg.record(ok(1));
    assert!(!agg.is_done());
    agg.record(Err(spawn_failure("boom")));
    assert!(!agg.is_done());
    agg.record(ok(0));
    assert!(agg.is_done());
    let result = agg.finish();
    assert_eq!(result.completed, 2);
    assert_eq!(result.failed, Some(spawn_failure("boom")));
}

#[test]
fn empty_batch_is_trivially_complete() {
    let result = drain_outcomes(Vec::new());
    assert_eq!(result.completed, 0);
    assert_eq!(result.failed, None);
    assert!(should_assemble(&result));
}

#[test]
fn end_to_end_success_scenario() {
    // Three samples' worth of jobs, all plotting invocations exiting zero.
    let jobs = generate_jobs(2);
    assert_eq!(jobs.len(), 3);
    let outcomes: Vec<JobOutcome> = jobs
        .iter()
        .map(|j| Ok(JobSuccess { index: j.index, exit_code: Some(0) }))
        .collect();
    let result = drain_outcomes(outcomes);
    assert_eq!(result.completed, 3);
    assert_eq!(result.failed, None);
    assert!(should_assemble(&result));
}

#[test]
fn end_to_end_failure_scenario() {
    // Job index 1 fails to spawn; the batch still drains all three
    // outcomes, reports that failure, and refuses assembly.
    let jobs = generate_jobs(2);
    let outcomes: Vec<JobOutcome> = jobs
        .iter()
        .map(|j| {
            if j.index == 1 {
                Err(spawn_failure("spawn failed for job 1"))
            } else {
                Ok(JobSuccess { index: j.index, exit_code: Some(0) })
            }
        })
        .collect();
    assert_eq!(outcomes.len(), 3);
    let result = drain_outcomes(outcomes);
    assert_eq!(result.completed, 2);
    assert_eq!(result.failed, Some(spawn_failure("spawn failed for job 1")));
    assert!(!should_assemble(&result));
}
