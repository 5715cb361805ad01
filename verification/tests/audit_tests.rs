use malverde::audit::{AuditAction, AuditLog, AuditQuery, AuditStorage, AuditSummary};
use malverde::audit_logger::{AuditLogger, MemoryAuditStorage};
use malverde::error::MalverdeError;
use malverde::ids::{ActorId, AuditId, JobId};
use malverde::types::AuditState;

struct FailingStorage;

impl AuditStorage for FailingStorage {
    fn save(&mut self, _log: &AuditLog) -> Result<(), String> {
        Err("disk full".to_string())
    }
    fn find_by_id(&self, _id: &AuditId) -> Result<Option<AuditLog>, String> {
        Err("offline".to_string())
    }
    fn query(&self, _q: &AuditQuery) -> Result<Vec<AuditLog>, String> {
        Ok(Vec::new())
    }
    fn get_summary(&self, _q: &AuditQuery) -> Result<AuditSummary, String> {
        Err("no".to_string())
    }
    fn delete_by_id(&mut self, _id: &AuditId) -> Result<(), String> {
        Ok(())
    }
    fn delete_by_query(&mut self, _q: &AuditQuery) -> Result<usize, String> {
        Ok(0)
    }
}

fn record(id: u128) -> AuditLog {
    AuditLog::new_at(AuditAction::JobStarted, "job".to_string(), format!("j{}", id), AuditId { value: id }, 5)
}

#[test]
fn new_record_is_successful_and_recorded() {
    let r = record(1);
    assert!(r.success);
    assert_eq!(r.state, AuditState::Recorded);
    assert!(r.error.is_none());
    assert_eq!(r.timestamp, 5);
    let fresh = AuditLog::new(AuditAction::SystemStartup, "sys".to_string(), "1".to_string());
    assert_ne!(fresh.id.value, 0);
}

#[test]
fn record_builders_and_marks() {
    let mut r = record(1)
        .with_actor(ActorId { value: 2 })
        .with_job(JobId::from_value(3))
        .with_state_change(AuditState::Processed, AuditState::Recorded)
        .with_error("denied".to_string());
    assert_eq!(r.actor_id, Some(ActorId { value: 2 }));
    assert_eq!(r.job_id, Some(JobId::from_value(3)));
    assert_eq!(r.state, AuditState::Processed);
    assert_eq!(r.previous_state, Some(AuditState::Recorded));
    assert!(!r.success);
    assert_eq!(r.error.as_deref(), Some("denied"));
    r.mark_archived();
    assert_eq!(r.state, AuditState::Archived);
    let ok = record(2).with_success(false).with_success(true);
    assert!(ok.success);
}

#[test]
fn logging_replaces_nil_identifier() {
    let mut logger: AuditLogger<MemoryAuditStorage> = AuditLogger::new();
    let mut r = record(0);
    r.id = AuditId::nil();
    let id = logger.log(r).unwrap();
    assert_ne!(id.value, 0);
    let back = logger.get_log(&id).unwrap().unwrap();
    assert_eq!(back.id, id);
    let kept = logger.log(record(42)).unwrap();
    assert_eq!(kept.value, 42);
}

#[test]
fn buffer_drops_oldest_when_full() {
    let mut logger: AuditLogger<MemoryAuditStorage> = AuditLogger::new();
    logger.set_max_buffer_size(2);
    for i in 1..=3 {
        logger.log(record(i)).unwrap();
    }
    let recent: Vec<u128> = logger.get_recent_logs(10).iter().map(|l| l.id.value).collect();
    assert_eq!(recent, vec![3, 2]);
    assert!(logger.get_log(&AuditId { value: 1 }).unwrap().is_none());
    let newest: Vec<u128> = logger.get_recent_logs(1).iter().map(|l| l.id.value).collect();
    assert_eq!(newest, vec![3]);
}

#[test]
fn storage_receives_logged_records() {
    let mut logger = AuditLogger::with_storage(MemoryAuditStorage::new());
    logger.log_action(AuditAction::KnowledgeAdded, "knowledge".to_string(), "k1".to_string()).unwrap();
    let recent = logger.get_recent_logs(5);
    assert_eq!(recent.len(), 1);
    assert_eq!(recent[0].resource_id, "k1");
}

#[test]
fn storage_failure_is_a_storage_error() {
    let mut logger = AuditLogger::with_storage(FailingStorage);
    match logger.log(record(1)) {
        Err(MalverdeError::StorageError(m)) => assert_eq!(m, "disk full"),
        other => panic!("unexpected {:?}", other),
    }
    assert_eq!(logger.get_recent_logs(5).len(), 1);
    assert!(logger.get_log(&AuditId { value: 1 }).unwrap().is_some());
    match logger.get_log(&AuditId { value: 2 }) {
        Err(MalverdeError::StorageError(m)) => assert_eq!(m, "offline"),
        other => panic!("unexpected {:?}", other),
    }
}

#[test]
fn memory_storage_saves_finds_and_deletes() {
    let mut s = MemoryAuditStorage::new();
    s.save(&record(1)).unwrap();
    s.save(&record(2)).unwrap();
    s.save(&record(1)).unwrap();
    assert_eq!(s.find_by_id(&AuditId { value: 2 }).unwrap().unwrap().resource_id, "j2");
    assert!(s.find_by_id(&AuditId { value: 3 }).unwrap().is_none());
    assert_eq!(s.query(&AuditQuery::new()).unwrap().len(), 3);
    assert_eq!(s.get_summary(&AuditQuery::new()).unwrap().total_logs, 3);
    s.delete_by_id(&AuditId { value: 1 }).unwrap();
    let left: Vec<u128> = s.query(&AuditQuery::new()).unwrap().iter().map(|l| l.id.value).collect();
    assert_eq!(left, vec![2]);
    assert_eq!(s.delete_by_query(&AuditQuery::new()).unwrap(), 0);
}

#[test]
fn custom_action_is_copied() {
    let a = AuditAction::Custom("export".to_string());
    match a.duplicate() {
        AuditAction::Custom(s) => assert_eq!(s, "export"),
        other => panic!("unexpected {:?}", other),
    }
}
