use malverde::storage::{priority_from_text, priority_to_text, status_from_text, status_to_text};
use malverde::types::{JobPriority, JobStatus};

#[test]
fn status_names_round_trip() {
    for s in [JobStatus::Pending, JobStatus::Running, JobStatus::Paused, JobStatus::Completed, JobStatus::Failed] {
        let text = status_to_text(s);
        assert_eq!(status_from_text(&text), s);
    }
    assert_eq!(status_to_text(JobStatus::Completed), "Completed");
    assert_eq!(status_from_text("bogus"), JobStatus::Pending);
}

#[test]
fn priority_names_round_trip() {
    for p in [JobPriority::Low, JobPriority::Normal, JobPriority::High, JobPriority::Critical] {
        let text = priority_to_text(p);
        assert_eq!(priority_from_text(&text), p);
    }
    assert_eq!(priority_to_text(JobPriority::Critical), "Critical");
    assert_eq!(priority_from_text(""), JobPriority::Normal);
}

use malverde::ids::{CheckpointId, EventId, JobId, KnowledgeId, MemoryId};
use malverde::migrations::Migrations;
use malverde::storage::{
    checkpoint_from_row, checkpoint_to_row, event_from_row, event_to_row, job_from_row, job_to_row,
    knowledge_from_row, knowledge_to_row, memory_from_row, memory_to_row, Checkpoint, Job, Knowledge, Memory,
    StoredEvent,
};

#[test]
fn uuid_text_reads_back() {
    let v: u128 = 0x67e5504410b1426f9247bb680e5fe0c8;
    let t = KnowledgeId { value: v }.to_text();
    assert_eq!(t, "67e55044-10b1-426f-9247-bb680e5fe0c8");
    let row = malverde::storage::CheckpointRow { id: t.clone(), job_id: t, state: "1".to_string(), created_at: 0 };
    let back = checkpoint_from_row(&row).unwrap();
    assert_eq!(back.id.value, v);
    assert_eq!(back.job_id.value, v);
    let bad = malverde::storage::CheckpointRow {
        id: "not a uuid".to_string(),
        job_id: "also not".to_string(),
        state: "1".to_string(),
        created_at: 0,
    };
    assert!(checkpoint_from_row(&bad).is_none());
}

#[test]
fn job_row_round_trip() {
    let mut j = Job::new_at("index".to_string(), JobId::from_value(11), 100);
    j.priority = JobPriority::High;
    j.checkpoint_id = Some(CheckpointId { value: 12 });
    j.data = "{\"a\":1}".to_string();
    j.start_at(150);
    let row = job_to_row(&j);
    assert_eq!(row.status, "Running");
    assert_eq!(row.priority, "High");
    assert_eq!(row.description.as_deref(), Some(""));
    assert_eq!(row.completed_at, Some(0));
    let back = job_from_row(&row).unwrap();
    assert_eq!(back.id, j.id);
    assert_eq!(back.status, JobStatus::Running);
    assert_eq!(back.priority, JobPriority::High);
    assert_eq!(back.checkpoint_id, j.checkpoint_id);
    assert_eq!(back.data, j.data);
    assert_eq!(back.started_at, Some(150));
    assert_eq!(back.completed_at, Some(0));
}

#[test]
fn job_row_without_checkpoint_cannot_be_read() {
    let j = Job::new_at("x".to_string(), JobId::from_value(1), 0);
    let row = job_to_row(&j);
    assert_eq!(row.checkpoint_id.as_deref(), Some(""));
    assert!(job_from_row(&row).is_none());
}

#[test]
fn job_lifecycle_in_storage() {
    let mut j = Job::new_at("x".to_string(), JobId::from_value(1), 0);
    assert_eq!(j.status, JobStatus::Pending);
    assert_eq!(j.priority, JobPriority::Normal);
    assert_eq!(j.data, "null");
    j.complete_at(9);
    assert_eq!(j.status, JobStatus::Completed);
    assert_eq!(j.completed_at, Some(9));
    j.fail_at(10);
    assert_eq!(j.status, JobStatus::Failed);
    assert_eq!(j.updated_at, 10);
}

#[test]
fn knowledge_row_round_trip() {
    let k = Knowledge::new_at("t".to_string(), "c".to_string(), KnowledgeId { value: 3 }, 7)
        .with_tags(vec!["a".to_string(), "b\"q".to_string()])
        .with_metadata("{\"x\":true}".to_string());
    let row = knowledge_to_row(&k).unwrap();
    assert_eq!(row.tags, "[\"a\",\"b\\\"q\"]");
    let back = knowledge_from_row(&row).unwrap();
    assert_eq!(back.tags, k.tags);
    assert_eq!(back.metadata, k.metadata);
    assert_eq!(back.created_at, 7);
}

#[test]
fn unreadable_json_columns_read_as_defaults() {
    let k = Knowledge::new_at("t".to_string(), "c".to_string(), KnowledgeId { value: 3 }, 7);
    let mut row = knowledge_to_row(&k).unwrap();
    row.tags = "oops".to_string();
    row.metadata = "{broken".to_string();
    let back = knowledge_from_row(&row).unwrap();
    assert!(back.tags.is_empty());
    assert_eq!(back.metadata, "null");
}

#[test]
fn memory_event_and_checkpoint_rows() {
    let m = Memory::new_at("key".to_string(), "42".to_string(), MemoryId { value: 4 }, 1);
    let row = memory_to_row(&m);
    assert_eq!(row.session_id.as_deref(), Some(""));
    assert_eq!(row.expires_at, Some(0));
    let back = memory_from_row(&row).unwrap();
    assert_eq!(back.value, "42");
    let e = StoredEvent::new_at(EventId { value: 5 }, "JobStarted".to_string(), "[1]".to_string(), 3);
    let erow = event_to_row(&e);
    assert_eq!(erow.processed, 0);
    let mut erow2 = erow;
    erow2.processed = 7;
    assert!(event_from_row(&erow2).unwrap().processed);
    let c = Checkpoint::new_at(JobId::from_value(6), "{}".to_string(), CheckpointId { value: 7 }, 2);
    let back = checkpoint_from_row(&checkpoint_to_row(&c)).unwrap();
    assert_eq!(back.job_id, JobId::from_value(6));
    assert_eq!(back.state, "{}");
}

#[test]
fn migrations_pending_in_order() {
    let names = Migrations::names();
    assert_eq!(names.len(), 8);
    assert_eq!(names[0], "001_create_knowledge_table");
    assert_eq!(Migrations::pending(&Vec::new()), (0..8).collect::<Vec<usize>>());
    let applied = vec!["002_create_memory_table".to_string(), "001_create_knowledge_table".to_string()];
    assert_eq!(Migrations::pending(&applied), vec![2, 3, 4, 5, 6, 7]);
    assert_eq!(Migrations::statements(1).len(), 2);
    assert!(Migrations::statements(8).is_empty());
    assert!(Migrations::setup_statement().starts_with("CREATE TABLE IF NOT EXISTS migrations"));
}

#[test]
fn migrations_applied_once_leave_nothing_pending() {
    let all = Migrations::names();
    assert!(Migrations::pending(&all).is_empty());
}

#[test]
fn knowledge_reads_back_from_its_row() {
    let k = Knowledge::new_at("t".to_string(), "c".to_string(), KnowledgeId { value: 99 }, 3)
        .with_tags(vec!["x".to_string()])
        .with_metadata("[1,2]".to_string());
    let back = knowledge_from_row(&knowledge_to_row(&k).unwrap()).unwrap();
    assert_eq!(back.id, k.id);
    assert_eq!(back.title, k.title);
    assert_eq!(back.tags, k.tags);
    assert_eq!(back.metadata, k.metadata);
}

#[test]
fn ids_parse_from_their_text() {
    let id = JobId::from_value(0xabc);
    assert_eq!(JobId::from_text(&id.to_text()), Some(id));
    assert_eq!(JobId::from_text("nope"), None);
}
