use malverde::context::ContextBuilder;
use malverde::context::JobContext;
use malverde::ids::{ActorId, EvidenceId, JobId, OperationId, ProjectId};
use malverde::types::{Command, Intent};

fn ctx() -> JobContext {
    JobContext::new(JobId::from_value(1), ProjectId { value: 2 }, OperationId { value: 3 }, ActorId { value: 4 })
}

#[test]
fn new_context_is_empty() {
    let c = ctx();
    assert_eq!(c.working_dir, "/tmp/malverde");
    assert!(c.command.is_none());
    assert!(c.intent.is_none());
    assert_eq!(c.env_vars.len(), 0);
    assert!(c.temp_files.is_empty());
    assert!(c.timeout_at.is_none());
}

#[test]
fn env_vars_and_flags_read_back() {
    let mut c = ctx();
    c.set_env("PATH".to_string(), "/bin".to_string());
    c.set_env("PATH".to_string(), "/usr/bin".to_string());
    assert_eq!(c.get_env("PATH").map(|s| s.as_str()), Some("/usr/bin"));
    assert!(c.get_env("HOME").is_none());
    c.set_flag("dry".to_string(), true);
    assert!(c.get_flag("dry"));
    assert!(!c.get_flag("other"));
}

#[test]
fn resources_are_kept_by_handle() {
    let mut c = ctx();
    assert_eq!(c.get_resource("db"), None);
    c.add_resource("db".to_string(), 42);
    assert_eq!(c.get_resource("db"), Some(42));
    c.add_resource("db".to_string(), 43);
    assert_eq!(c.get_resource("db"), Some(43));
}

#[test]
fn files_evidence_command_and_intent() {
    let mut c = ctx();
    c.add_temp_file("/tmp/a".to_string());
    c.add_temp_file("/tmp/b".to_string());
    assert_eq!(c.temp_files, vec!["/tmp/a".to_string(), "/tmp/b".to_string()]);
    c.add_evidence(EvidenceId { value: 9 });
    assert_eq!(c.evidence_ids, vec![EvidenceId { value: 9 }]);
    c.set_command(Command { name: "nmap".to_string(), args: vec!["-sV".to_string()] });
    assert_eq!(c.command.as_ref().unwrap().name, "nmap");
    c.set_intent(Intent { description: "scan".to_string() });
    assert_eq!(c.intent.as_ref().unwrap().description, "scan");
}

#[test]
fn timeout_passes_after_deadline() {
    let mut c = ctx();
    assert!(!c.is_timeout_at(i64::MAX));
    c.set_timeout_at(1000, 500);
    assert_eq!(c.timeout_at, Some(1500));
    assert!(!c.is_timeout_at(1500));
    assert!(c.is_timeout_at(1501));
    c.set_timeout_at(i64::MAX - 1, 10);
    assert_eq!(c.timeout_at, Some(i64::MAX));
}

#[test]
fn builder_carries_settings_into_context() {
    let c = ContextBuilder::new(JobId::from_value(1), ProjectId { value: 2 }, OperationId { value: 3 }, ActorId { value: 4 })
        .working_dir("/work".to_string())
        .env("A".to_string(), "1".to_string())
        .flag("f".to_string(), true)
        .build();
    assert_eq!(c.working_dir, "/work");
    assert_eq!(c.get_env("A").map(|s| s.as_str()), Some("1"));
    assert!(c.get_flag("f"));
    assert!(c.temp_files.is_empty());
    assert_eq!(c.get_resource("x"), None);
}

#[test]
fn duplicate_copies_everything() {
    let mut c = ctx();
    c.set_env("K".to_string(), "V".to_string());
    c.add_resource("r".to_string(), 5);
    let d = c.duplicate();
    assert_eq!(d.get_env("K").map(|s| s.as_str()), Some("V"));
    assert_eq!(d.get_resource("r"), Some(5));
    assert_eq!(d.job_id, c.job_id);
}

#[test]
fn setters_keep_other_fields() {
    let mut c = ctx();
    c.set_command(Command { name: "x".to_string(), args: Vec::new() });
    c.set_env("A".to_string(), "1".to_string());
    c.set_flag("f".to_string(), true);
    c.add_temp_file("/tmp/t".to_string());
    assert_eq!(c.project_id, ProjectId { value: 2 });
    assert_eq!(c.command.as_ref().unwrap().name, "x");
    assert_eq!(c.working_dir, "/tmp/malverde");
}
