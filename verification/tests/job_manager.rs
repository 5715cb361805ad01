use malverde::error::JobError;
use malverde::ids::{ActorId, JobId, OperationId, ProjectId};
use malverde::job::{Job, JobPayload};
use malverde::manager::{JobEventKind, JobFilter, JobManager};
use malverde::types::JobState;

fn job(id: u128, project: u128, actor: u128) -> Job {
    Job::new_at(
        JobId::from_value(id),
        ProjectId { value: project },
        OperationId { value: 9 },
        ActorId { value: actor },
        format!("job-{}", id),
        JobPayload::Data { data: "{}".to_string(), format: "json".to_string() },
        0,
    )
}

#[test]
fn added_job_waits_in_pending_queue() {
    let mut m = JobManager::new_at(2, 0);
    assert_eq!(m.add_job(job(1, 1, 1)).unwrap(), JobId::from_value(1));
    let s = m.stats();
    assert_eq!(s.total, 1);
    assert_eq!(s.pending, 1);
    assert_eq!(s.running, 0);
    assert_eq!(m.get_job(&JobId::from_value(1)).unwrap().state, JobState::Pending);
}

#[test]
fn adding_a_known_job_is_refused() {
    let mut m = JobManager::new_at(2, 0);
    m.add_job(job(1, 1, 1)).unwrap();
    match m.add_job(job(1, 1, 1)) {
        Err(JobError::AlreadyExists(text)) => assert_eq!(text, JobId::from_value(1).to_text()),
        other => panic!("unexpected {:?}", other),
    }
    assert_eq!(m.stats().pending, 1);
}

#[test]
fn unknown_job_is_not_found() {
    let mut m = JobManager::new_at(2, 0);
    assert!(matches!(m.get_job(&JobId::from_value(4)), Err(JobError::NotFound(_))));
    assert!(matches!(m.start_job_at(&JobId::from_value(4), 1), Err(JobError::NotFound(_))));
    assert!(matches!(m.remove_job(&JobId::from_value(4)), Err(JobError::NotFound(_))));
}

#[test]
fn starting_moves_job_to_running_with_context() {
    let mut m = JobManager::new_at(2, 0);
    m.add_job(job(1, 1, 1)).unwrap();
    m.start_job_at(&JobId::from_value(1), 50).unwrap();
    let j = m.get_job(&JobId::from_value(1)).unwrap();
    assert_eq!(j.state, JobState::Running);
    assert_eq!(j.started_at, Some(50));
    let s = m.stats();
    assert_eq!((s.pending, s.running), (0, 1));
    let ctx = m.get_context(&JobId::from_value(1)).unwrap();
    assert_eq!(ctx.job_id, JobId::from_value(1));
    assert_eq!(ctx.working_dir, "/tmp/malverde");
}

#[test]
fn running_queue_is_bounded() {
    let mut m = JobManager::new_at(1, 0);
    m.add_job(job(1, 1, 1)).unwrap();
    m.add_job(job(2, 1, 1)).unwrap();
    m.start_job_at(&JobId::from_value(1), 1).unwrap();
    match m.start_job_at(&JobId::from_value(2), 2) {
        Err(JobError::InvalidState(msg)) => assert_eq!(msg, "Maximum concurrent jobs reached"),
        other => panic!("unexpected {:?}", other),
    }
    assert_eq!(m.stats().running, 1);
}

#[test]
fn start_then_complete_restores_running_queue() {
    let mut m = JobManager::new_at(2, 0);
    m.add_job(job(1, 1, 1)).unwrap();
    m.start_job_at(&JobId::from_value(1), 5).unwrap();
    m.complete_job_at(&JobId::from_value(1), Vec::new(), 9).unwrap();
    let s = m.stats();
    assert_eq!((s.pending, s.running), (0, 0));
    let j = m.get_job(&JobId::from_value(1)).unwrap();
    assert_eq!(j.state, JobState::Completed);
    assert_eq!(j.completed_at, Some(9));
    assert!(m.get_context(&JobId::from_value(1)).is_none());
}

#[test]
fn pause_then_resume_keeps_queues() {
    let mut m = JobManager::new_at(2, 0);
    m.add_job(job(1, 1, 1)).unwrap();
    m.start_job_at(&JobId::from_value(1), 5).unwrap();
    m.pause_job_at(&JobId::from_value(1), 6).unwrap();
    assert_eq!(m.get_job(&JobId::from_value(1)).unwrap().state, JobState::Paused);
    assert!(matches!(m.pause_job_at(&JobId::from_value(1), 7), Err(JobError::InvalidState(_))));
    m.resume_job_at(&JobId::from_value(1), 8).unwrap();
    let j = m.get_job(&JobId::from_value(1)).unwrap();
    assert_eq!(j.state, JobState::Running);
    assert_eq!(j.updated_at, 8);
    assert_eq!(j.started_at, Some(5));
    assert_eq!(m.stats().running, 1);
    assert!(m.get_context(&JobId::from_value(1)).is_some());
}

#[test]
fn add_then_remove_gives_job_back() {
    let mut m = JobManager::new_at(2, 0);
    m.add_job(job(3, 1, 1)).unwrap();
    let removed = m.remove_job(&JobId::from_value(3)).unwrap();
    assert_eq!(removed.id, JobId::from_value(3));
    assert_eq!(removed.name, "job-3");
    let s = m.stats();
    assert_eq!((s.total, s.pending, s.running), (0, 0, 0));
}

#[test]
fn cancel_and_fail_refusals() {
    let mut m = JobManager::new_at(2, 0);
    m.add_job(job(1, 1, 1)).unwrap();
    m.cancel_job_at(&JobId::from_value(1), 3).unwrap();
    assert_eq!(m.get_job(&JobId::from_value(1)).unwrap().state, JobState::Cancelled);
    assert_eq!(m.stats().pending, 0);
    m.add_job(job(2, 1, 1)).unwrap();
    m.fail_job_at(&JobId::from_value(2), "bad".to_string(), 4).unwrap();
    match m.fail_job_at(&JobId::from_value(2), "again".to_string(), 5) {
        Err(JobError::InvalidState(msg)) => assert_eq!(msg, "Cannot fail job in state: Failed"),
        other => panic!("unexpected {:?}", other),
    }
    match m.cancel_job_at(&JobId::from_value(2), 5) {
        Err(JobError::InvalidState(msg)) => assert_eq!(msg, "Cannot cancel job in state: Failed"),
        other => panic!("unexpected {:?}", other),
    }
}

#[test]
fn process_next_starts_front_of_queue() {
    let mut m = JobManager::new_at(1, 0);
    assert!(matches!(m.process_next_at(1), Ok(None)));
    m.add_job(job(1, 1, 1)).unwrap();
    m.add_job(job(2, 1, 1)).unwrap();
    assert_eq!(m.process_next_at(2).unwrap(), Some(JobId::from_value(1)));
    assert!(matches!(m.process_next_at(3), Ok(None)));
    assert_eq!(m.stats().pending, 1);
}

#[test]
fn process_all_fills_free_slots_in_order() {
    let mut m = JobManager::new_at(2, 0);
    for i in 1..=3 {
        m.add_job(job(i, 1, 1)).unwrap();
    }
    let started = m.process_all_at(10).unwrap();
    assert_eq!(started, vec![JobId::from_value(1), JobId::from_value(2)]);
    let s = m.stats();
    assert_eq!((s.pending, s.running), (1, 2));
}

#[test]
fn timeouts_fail_overdue_jobs() {
    let mut m = JobManager::new_at(2, 0);
    let mut j = job(1, 1, 1);
    j.timeout = Some(100);
    m.add_job(j).unwrap();
    m.add_job(job(2, 1, 1)).unwrap();
    m.start_job_at(&JobId::from_value(1), 0).unwrap();
    m.start_job_at(&JobId::from_value(2), 0).unwrap();
    m.check_timeouts_at(100);
    assert_eq!(m.get_job(&JobId::from_value(1)).unwrap().state, JobState::Running);
    m.check_timeouts_at(101);
    let failed = m.get_job(&JobId::from_value(1)).unwrap();
    assert_eq!(failed.state, JobState::Failed);
    assert_eq!(failed.error.as_deref(), Some("Job timeout"));
    assert_eq!(m.get_job(&JobId::from_value(2)).unwrap().state, JobState::Running);
    assert_eq!(m.stats().running, 1);
}

#[test]
fn filters_select_by_state_project_and_actor() {
    let mut m = JobManager::new_at(2, 0);
    m.add_job(job(1, 10, 100)).unwrap();
    m.add_job(job(2, 10, 200)).unwrap();
    m.add_job(job(3, 20, 100)).unwrap();
    m.start_job_at(&JobId::from_value(2), 1).unwrap();
    assert_eq!(m.get_all_jobs().len(), 3);
    assert_eq!(m.get_jobs_by_state(JobState::Pending).len(), 2);
    assert_eq!(m.get_jobs_by_project(&ProjectId { value: 10 }).len(), 2);
    assert_eq!(m.get_jobs_by_actor(&ActorId { value: 100 }).len(), 2);
    let running = m.select_jobs(&JobFilter::State(JobState::Running));
    assert_eq!(running.len(), 1);
    assert_eq!(running[0].id, JobId::from_value(2));
}

#[test]
fn stats_count_jobs_by_state() {
    let mut m = JobManager::new_at(2, 0);
    m.add_job(job(1, 1, 1)).unwrap();
    m.add_job(job(2, 1, 1)).unwrap();
    m.start_job_at(&JobId::from_value(1), 1).unwrap();
    let s = m.stats();
    assert_eq!(s.by_state, vec![(JobState::Pending, 1), (JobState::Running, 1)]);
}

#[test]
fn load_all_queues_by_state() {
    let mut m = JobManager::new_at(3, 0);
    let pending = job(1, 1, 1);
    let mut running = job(2, 1, 1);
    running.state = JobState::Running;
    let mut done = job(3, 1, 1);
    done.state = JobState::Completed;
    m.load_all(vec![pending, running, done]);
    let s = m.stats();
    assert_eq!((s.total, s.pending, s.running), (3, 1, 1));
}

#[test]
fn checkpoints_fall_due_after_interval() {
    let mut m = JobManager::new_at(1, 1000);
    assert!(!m.checkpoint_due_at(30999));
    assert!(m.checkpoint_due_at(31000));
    m.mark_checkpoint_at(31000);
    assert!(!m.checkpoint_due_at(31001));
    assert!(!m.checkpoint_due_at(0));
}

#[test]
fn events_that_free_a_slot_start_the_next_job() {
    let mut m = JobManager::new_at(1, 0);
    m.add_job(job(1, 1, 1)).unwrap();
    assert!(m.handle_event_at(JobEventKind::Progress, 1).is_none());
    match m.handle_event_at(JobEventKind::Added, 2) {
        Some(Ok(Some(id))) => assert_eq!(id, JobId::from_value(1)),
        other => panic!("unexpected {:?}", other),
    }
}

#[test]
fn create_job_adds_pending_job() {
    let mut m = JobManager::new(2);
    let id = m
        .create_job(
            ProjectId { value: 1 },
            OperationId { value: 2 },
            ActorId { value: 3 },
            "made".to_string(),
            JobPayload::Knowledge { query: "q".to_string(), context: None },
        )
        .unwrap();
    let j = m.get_job(&id).unwrap();
    assert_eq!(j.state, JobState::Pending);
    assert_eq!(j.name, "made");
    assert_ne!(id.value, 0);
}

#[test]
fn failed_job_leaves_pending_queue() {
    let mut m = JobManager::new(1);
    let id = m
        .create_job(
            ProjectId::new(),
            OperationId::new(),
            ActorId::new(),
            "j".to_string(),
            JobPayload::Data { data: "d".to_string(), format: "csv".to_string() },
        )
        .unwrap();
    assert!(m.fail_job(&id, "boom".to_string()).is_ok());
    let j = m.get_job(&id).unwrap();
    assert_eq!(j.state, JobState::Failed);
    assert_eq!(j.error.as_deref(), Some("boom"));
    assert_eq!(m.stats().pending, 0);
    assert!(matches!(m.process_next(), Ok(None)));
}

#[test]
fn load_all_stores_every_job() {
    let mut m = JobManager::new_at(1, 0);
    m.add_job(job(1, 1, 1)).unwrap();
    let mut r1 = job(2, 1, 1);
    r1.state = JobState::Running;
    let mut r2 = job(3, 1, 1);
    r2.state = JobState::Paused;
    let dup = job(1, 2, 2);
    m.load_all(vec![r1, r2, dup]);
    let s = m.stats();
    assert_eq!((s.total, s.pending, s.running), (3, 1, 1));
    assert_eq!(m.get_job(&JobId::from_value(3)).unwrap().state, JobState::Paused);
    assert_eq!(m.get_job(&JobId::from_value(1)).unwrap().project_id, ProjectId { value: 2 });
}

#[test]
fn stats_counts_sum_to_total() {
    let mut m = JobManager::new_at(2, 0);
    for i in 1..=4 {
        m.add_job(job(i, 1, 1)).unwrap();
    }
    m.start_job_at(&JobId::from_value(1), 1).unwrap();
    m.cancel_job_at(&JobId::from_value(2), 2).unwrap();
    let s = m.stats();
    let sum: usize = s.by_state.iter().map(|(_, c)| *c).sum();
    assert_eq!(sum, s.total);
}
