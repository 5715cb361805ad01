use malverde::cli::{banner, error_line, header_lines, info_line, response, success_line, ActorCommands, Commands, JobCommands, ProjectCommands};
use malverde::config::{Config, SharedConfig};
use malverde::error::{JobError, MalverdeError};
use malverde::events::EventType;
use malverde::handlers::{EventBus, GenericEvent, KnowledgeAddedEvent, LogHandler};
use malverde::ids::{EventId, KnowledgeId, ProjectId};
use malverde::logging::LoggingContext;
use malverde::tui::{App, Key};
use malverde::types::LogLevel;

#[test]
fn default_config_values() {
    let c = Config::new();
    assert_eq!(c.app_name, "Malverde");
    assert_eq!(c.version, "0.1.0");
    assert_eq!(c.storage_path, "malverde.db");
    assert_eq!(c.log_level, LogLevel::Info);
    assert_eq!(c.max_threads, 4);
    assert_eq!(c.storage_timeout, 30);
    assert!(c.enable_fts5);
    assert!(!c.debug_mode);
}

#[test]
fn shared_config_gives_same_settings() {
    let mut c = Config::new();
    c.max_threads = 9;
    let s = SharedConfig::new(c);
    assert_eq!(s.get().max_threads, 9);
    assert_eq!(s.settings().app_name, "Malverde");
}

#[test]
fn logging_context_tags_messages() {
    let ctx = LoggingContext::new("jobs".to_string(), "start".to_string());
    let line = ctx.log(LogLevel::Warn, "slow");
    assert_eq!(line.text, "[jobs] [start] slow");
    assert_eq!(line.level, LogLevel::Warn);
}

#[test]
fn dashboard_quits_on_q_and_escape() {
    let mut app = App::new();
    assert!(app.running);
    assert!(app.handle_key(Key::Char('x')));
    assert!(app.running);
    assert!(!app.handle_key(Key::Char('q')));
    assert!(!app.running);
    let mut other = App::new();
    assert!(!other.handle_key(Key::Esc));
    assert!(!other.running);
}

#[test]
fn command_responses() {
    assert_eq!(banner(), "Malverde CLI v0.1.0");
    assert_eq!(response(&Commands::Init { name: "p".to_string() }), "Initializing project: p");
    assert_eq!(response(&Commands::Health), "System health: OK");
    assert_eq!(
        response(&Commands::Actor(ActorCommands::Create { name: "a".to_string(), kind: "bot".to_string() })),
        "Creating actor: a (bot)"
    );
    assert_eq!(
        response(&Commands::Project(ProjectCommands::Show { id: ProjectId { value: 1 } })),
        "Showing project: 00000000-0000-0000-0000-000000000001"
    );
    assert_eq!(response(&Commands::Job(JobCommands::Start { id: "j".to_string() })), "Starting job: j");
}

#[test]
fn report_lines() {
    let h = header_lines("Title");
    assert_eq!(h[0], "");
    assert_eq!(h[1], "=".repeat(50));
    assert_eq!(h[2], "Title");
    assert_eq!(success_line("done"), "[OK] done");
    assert_eq!(error_line("bad"), "[ERROR] bad");
    assert_eq!(info_line("fyi"), "[INFO] fyi");
}

#[test]
fn error_messages() {
    assert_eq!(MalverdeError::storage("x".to_string()).message(), "Storage error: x");
    assert_eq!(MalverdeError::filesystem("y".to_string()).message(), "Filesystem error: y");
    assert_eq!(JobError::Timeout(30).message(), "Job timeout after 30ms");
    match MalverdeError::from_job_error(JobError::NotFound("j".to_string())) {
        MalverdeError::JobError(m) => assert_eq!(m, "Job not found: j"),
        other => panic!("unexpected {:?}", other),
    }
}

#[test]
fn handler_bus_lists_handlers_by_type_name() {
    let mut bus = EventBus::new();
    assert!(bus.handlers_for("A").is_empty());
    bus.subscribe("A".to_string(), 1).unwrap();
    bus.subscribe("A".to_string(), 2).unwrap();
    bus.subscribe("B".to_string(), 3).unwrap();
    assert_eq!(bus.handlers_for("A"), vec![1, 2]);
    assert_eq!(bus.handlers_for("B"), vec![3]);
    assert_eq!(LogHandler.name(), "LogHandler");
}

#[test]
fn typed_events_report_their_parts() {
    let g = GenericEvent::new_at(EventType::JobStarted, "{}".to_string(), EventId { value: 1 }, 5);
    assert_eq!(g.id(), EventId { value: 1 });
    assert_eq!(g.timestamp(), 5);
    assert!(g.event_type().same_as(&EventType::JobStarted));
    let k = KnowledgeAddedEvent::new(KnowledgeId { value: 2 });
    assert!(k.event_type().same_as(&EventType::KnowledgeAdded));
    assert_eq!(k.knowledge_id, KnowledgeId { value: 2 });
}

#[test]
fn config_clones() {
    let c = Config::new();
    let d = c.clone();
    assert_eq!(d.app_name, c.app_name);
    let s = SharedConfig::new(d);
    assert_eq!(s.clone().get().max_threads, 4);
}
