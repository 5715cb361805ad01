use malverde::error::JobError;
use malverde::ids::{ActorId, JobId, OperationId, ProjectId};
use malverde::job::{job_state_text, Job, JobBuilder, JobPayload};
use malverde::types::JobState;

fn payload() -> JobPayload {
    JobPayload::Command { command: "ls".to_string(), args: vec!["-l".to_string()] }
}

fn job_at(now: i64) -> Job {
    Job::new_at(
        JobId::from_value(7),
        ProjectId { value: 1 },
        OperationId { value: 2 },
        ActorId { value: 3 },
        "scan".to_string(),
        payload(),
        now,
    )
}

#[test]
fn new_job_is_pending_with_defaults() {
    let j = job_at(1000);
    assert_eq!(j.state, JobState::Pending);
    assert_eq!(j.priority, 50);
    assert_eq!(j.max_retries, 3);
    assert_eq!(j.created_at, 1000);
    assert_eq!(j.updated_at, 1000);
    assert!(j.started_at.is_none());
    assert!(j.timeout.is_none());
    assert_eq!(j.confidence.value, 0);
}

#[test]
fn job_runs_through_its_lifecycle() {
    let mut j = job_at(0);
    assert!(j.start_at(10).is_ok());
    assert_eq!(j.state, JobState::Running);
    assert_eq!(j.started_at, Some(10));
    assert!(j.is_active());
    assert!(j.pause_at(20).is_ok());
    assert_eq!(j.state, JobState::Paused);
    assert!(j.resume_at(30).is_ok());
    assert_eq!(j.state, JobState::Running);
    assert!(j.complete_at(Vec::new(), 40).is_ok());
    assert_eq!(j.state, JobState::Completed);
    assert_eq!(j.completed_at, Some(40));
    assert!(j.is_completed());
    assert!(!j.is_active());
    assert_eq!(j.duration_at(1000), Some(30));
}

#[test]
fn refused_transitions_name_the_state() {
    let mut j = job_at(0);
    match j.complete_at(Vec::new(), 5) {
        Err(JobError::InvalidState(m)) => assert_eq!(m, "Cannot complete job in state: Pending"),
        other => panic!("unexpected {:?}", other),
    }
    match j.pause_at(5) {
        Err(JobError::InvalidState(m)) => assert_eq!(m, "Cannot pause job in state: Pending"),
        other => panic!("unexpected {:?}", other),
    }
    assert!(j.start_at(1).is_ok());
    match j.start_at(2) {
        Err(JobError::InvalidState(m)) => assert_eq!(m, "Cannot start job in state: Running"),
        other => panic!("unexpected {:?}", other),
    }
    assert_eq!(j.state, JobState::Running);
}

#[test]
fn failing_and_cancelling() {
    let mut j = job_at(0);
    assert!(j.fail_at("boom".to_string(), 9).is_ok());
    assert_eq!(j.state, JobState::Failed);
    assert_eq!(j.error.as_deref(), Some("boom"));
    assert!(j.cancel_at(10).is_err());
    let mut k = job_at(0);
    assert!(k.cancel_at(3).is_ok());
    assert_eq!(k.state, JobState::Cancelled);
    assert_eq!(k.completed_at, Some(3));
}

#[test]
fn duration_counts_until_now_while_running() {
    let mut j = job_at(0);
    assert_eq!(j.duration_at(50), None);
    j.start_at(100).unwrap();
    assert_eq!(j.duration_at(160), Some(60));
    assert_eq!(j.duration_at(90), Some(0));
}

#[test]
fn state_text_matches_debug_names() {
    assert_eq!(job_state_text(JobState::Cancelled), "Cancelled");
    assert_eq!(job_state_text(JobState::Pending), format!("{:?}", JobState::Pending));
}

#[test]
fn builder_requires_each_part_in_order() {
    match JobBuilder::new().build_at(0) {
        Err(JobError::InvalidState(m)) => assert_eq!(m, "Job ID is required"),
        other => panic!("unexpected {:?}", other),
    }
    let b = JobBuilder::new().id(JobId::from_value(1)).project_id(ProjectId { value: 2 });
    match b.build_at(0) {
        Err(JobError::InvalidState(m)) => assert_eq!(m, "Operation ID is required"),
        other => panic!("unexpected {:?}", other),
    }
}

#[test]
fn builder_builds_with_clamped_priority() {
    let job = JobBuilder::new()
        .id(JobId::from_value(5))
        .project_id(ProjectId { value: 1 })
        .operation_id(OperationId { value: 2 })
        .actor_id(ActorId { value: 3 })
        .name("train".to_string())
        .payload(payload())
        .priority(200)
        .max_retries(7)
        .timeout(5000)
        .metadata("k".to_string(), "v".to_string())
        .build_at(77)
        .unwrap();
    assert_eq!(job.priority, 100);
    assert_eq!(job.max_retries, 7);
    assert_eq!(job.timeout, Some(5000));
    assert_eq!(job.created_at, 77);
    assert_eq!(job.name, "train");
    assert_eq!(job.metadata.get("k").map(|s| s.as_str()), Some("v"));
}

#[test]
fn build_names_missing_job_name() {
    let b = JobBuilder::new()
        .id(JobId::new())
        .project_id(ProjectId::new())
        .operation_id(OperationId::new())
        .actor_id(ActorId::new())
        .payload(JobPayload::Data { data: "d".to_string(), format: "csv".to_string() });
    assert!(matches!(b.build(), Err(JobError::InvalidState(m)) if m == "Job name is required"));
}
