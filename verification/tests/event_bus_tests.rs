use malverde::event_bus::{EventBus, LoggingEventSubscriber, MultiEventSubscriber};
use malverde::events::{Event, EventBuilder, EventPayload, EventState, EventType};
use malverde::ids::{EventId, OperationId, ProjectId};

fn ev(id: u128, t: EventType) -> Event {
    Event::new_at(t, EventId { value: id }, id as i64)
}

fn ids(events: &[Event]) -> Vec<u128> {
    events.iter().map(|e| e.id.value).collect()
}

#[test]
fn buffer_keeps_most_recent_events() {
    let mut bus = EventBus::with_buffer_size(3);
    for i in 1..=5 {
        bus.publish(ev(i, EventType::JobStarted));
    }
    assert_eq!(ids(&bus.get_buffered_events()), vec![3, 4, 5]);
}

#[test]
fn publish_batch_adds_in_order() {
    let mut bus = EventBus::with_buffer_size(10);
    let got = bus.publish_batch(vec![ev(1, EventType::JobStarted), ev(2, EventType::JobFailed)]);
    assert_eq!(got.len(), 2);
    assert_eq!(ids(&bus.get_buffered_events()), vec![1, 2]);
}

#[test]
fn default_bus_keeps_a_thousand() {
    let mut bus = EventBus::new();
    for i in 0..1005 {
        bus.publish(ev(i, EventType::SystemHealthCheck));
    }
    let kept = bus.get_buffered_events();
    assert_eq!(kept.len(), 1000);
    assert_eq!(kept[0].id.value, 5);
    assert!(bus.channel_capacity().is_none());
    assert_eq!(EventBus::with_async_channel(8).channel_capacity(), Some(8));
}

#[test]
fn subscribers_are_listed_once_in_order() {
    let mut bus = EventBus::new();
    bus.subscribe(7, vec![EventType::JobStarted, EventType::JobCompleted]);
    bus.subscribe(8, vec![EventType::JobStarted]);
    bus.subscribe(7, vec![EventType::JobStarted]);
    assert_eq!(bus.subscriber_count(&EventType::JobStarted), 2);
    assert_eq!(bus.subscriber_count(&EventType::JobFailed), 0);
    assert_eq!(bus.total_subscribers(), 3);
    bus.subscribe_global(99, "audit".to_string());
    assert_eq!(bus.total_subscribers(), 4);
    let got = bus.publish(ev(1, EventType::JobStarted));
    assert_eq!(got, vec![7, 8, 99]);
    let got = bus.publish(ev(2, EventType::JobFailed));
    assert_eq!(got, vec![99]);
}

#[test]
fn unsubscribing_removes_the_handle() {
    let mut bus = EventBus::new();
    bus.subscribe(7, vec![EventType::JobStarted]);
    bus.subscribe(8, vec![EventType::JobStarted]);
    bus.unsubscribe(7, vec![EventType::JobStarted, EventType::JobFailed]);
    assert_eq!(bus.recipients_of(&EventType::JobStarted), vec![8]);
    bus.subscribe_global(1, "a".to_string());
    bus.unsubscribe_global("a");
    bus.unsubscribe_global("missing");
    assert_eq!(bus.recipients_of(&EventType::JobStarted), vec![8]);
}

#[test]
fn custom_types_are_told_apart_by_name() {
    let mut bus = EventBus::new();
    bus.subscribe(1, vec![EventType::Custom("a".to_string())]);
    assert_eq!(bus.subscriber_count(&EventType::Custom("a".to_string())), 1);
    assert_eq!(bus.subscriber_count(&EventType::Custom("b".to_string())), 0);
    assert!(EventType::Custom("a".to_string()).same_as(&EventType::Custom("a".to_string())));
    assert!(!EventType::Custom("a".to_string()).same_as(&EventType::JobStarted));
}

#[test]
fn buffered_events_filtered_by_type_and_state() {
    let mut bus = EventBus::new();
    bus.publish(ev(1, EventType::JobStarted));
    let mut done = ev(2, EventType::JobFailed);
    done.state = EventState::Archived;
    bus.publish(done);
    bus.publish(ev(3, EventType::JobStarted));
    assert_eq!(ids(&bus.get_events_by_type(EventType::JobStarted)), vec![1, 3]);
    assert_eq!(ids(&bus.get_pending_events()), vec![1, 3]);
    bus.clear_buffer();
    assert!(bus.get_buffered_events().is_empty());
}

#[test]
fn scoped_bus_tags_events() {
    let mut bus = EventBus::new();
    let scope = bus.scoped(Some(ProjectId { value: 5 }), Some(OperationId { value: 6 }));
    let e = scope.event_at(EventType::OperationStarted, EventPayload::Text("go".to_string()), EventId { value: 1 }, 10);
    assert_eq!(e.project_id, Some(ProjectId { value: 5 }));
    assert_eq!(e.operation_id, Some(OperationId { value: 6 }));
    scope.publish(&mut bus, EventType::OperationStarted, EventPayload::Empty);
    let kept = bus.get_buffered_events();
    assert_eq!(kept.len(), 1);
    assert_eq!(kept[0].project_id, Some(ProjectId { value: 5 }));
}

#[test]
fn subscribers_have_names_and_members() {
    let l = LoggingEventSubscriber::new("log".to_string());
    assert_eq!(l.name(), "log");
    let m = MultiEventSubscriber::new("multi".to_string()).add_subscriber(3).add_subscriber(4);
    assert_eq!(m.name(), "multi");
    assert_eq!(m.members(), vec![3, 4]);
}

#[test]
fn event_builder_sets_fields() {
    let e = EventBuilder::new(EventType::KnowledgeAdded)
        .project_id(ProjectId { value: 1 })
        .metadata("k".to_string(), "v".to_string())
        .sequence(4)
        .source("cli".to_string())
        .build_at(EventId { value: 11 }, 99);
    assert_eq!(e.id.value, 11);
    assert_eq!(e.timestamp, 99);
    assert_eq!(e.sequence, 4);
    assert_eq!(e.source, "cli");
    assert_eq!(e.metadata.get("k").map(|s| s.as_str()), Some("v"));
    let f = Event::new_at(EventType::SystemStartup, EventId { value: 1 }, 0);
    assert_eq!(f.source, "unknown");
    assert_eq!(f.state, EventState::Recorded);
}

#[test]
fn publish_drops_the_oldest_only_when_full() {
    let mut bus = EventBus::with_buffer_size(2);
    bus.publish(ev(1, EventType::JobStarted));
    assert_eq!(ids(&bus.get_buffered_events()), vec![1]);
    bus.publish(ev(2, EventType::JobStarted));
    assert_eq!(ids(&bus.get_buffered_events()), vec![1, 2]);
    bus.publish(ev(3, EventType::JobStarted));
    assert_eq!(ids(&bus.get_buffered_events()), vec![2, 3]);
    assert!(bus.get_buffered_events().len() <= bus.buffer_size());
}
