use malverde::correlation::EventCorrelator;
use malverde::events::{Event, EventBuilder, EventType};
use malverde::ids::{ActorId, EventId, ProjectId};

fn ev(id: u128, parent: Option<u128>, ts: i64) -> Event {
    let mut e = Event::new_at(EventType::JobProgress, EventId { value: id }, ts);
    e.parent_id = parent.map(|p| EventId { value: p });
    e
}

fn ids(events: &[Event]) -> Vec<u128> {
    events.iter().map(|e| e.id.value).collect()
}

fn sorted(mut v: Vec<u128>) -> Vec<u128> {
    v.sort();
    v
}

fn tree() -> EventCorrelator {
    // 1 -> 2 -> 4, 1 -> 3
    let mut c = EventCorrelator::new();
    c.add_event(ev(1, None, 100));
    c.add_event(ev(2, Some(1), 200));
    c.add_event(ev(3, Some(1), 300));
    c.add_event(ev(4, Some(2), 400));
    c
}

#[test]
fn children_and_parent_are_recorded() {
    let c = tree();
    assert_eq!(ids(&c.get_children(&EventId { value: 1 })), vec![2, 3]);
    assert_eq!(c.get_parent(&EventId { value: 4 }).unwrap().id.value, 2);
    assert!(c.get_parent(&EventId { value: 1 }).is_none());
    assert!(c.get_event(&EventId { value: 9 }).is_none());
}

#[test]
fn chain_lists_ancestors_then_descendants() {
    let c = tree();
    assert_eq!(ids(&c.get_chain(&EventId { value: 2 })), vec![1, 2, 4]);
    assert_eq!(ids(&c.get_chain(&EventId { value: 1 })), vec![1, 2, 3, 4]);
    assert_eq!(ids(&c.get_chain(&EventId { value: 4 })), vec![1, 2, 4]);
    assert!(c.get_chain(&EventId { value: 9 }).is_empty());
}

#[test]
fn relatedness_follows_the_chain() {
    let c = tree();
    assert!(c.are_related(&EventId { value: 4 }, &EventId { value: 1 }));
    assert!(c.are_related(&EventId { value: 1 }, &EventId { value: 4 }));
    assert!(c.are_related(&EventId { value: 3 }, &EventId { value: 3 }));
    assert!(!c.are_related(&EventId { value: 3 }, &EventId { value: 4 }));
}

#[test]
fn root_is_found_by_following_parents() {
    let c = tree();
    assert_eq!(c.get_root(&EventId { value: 4 }).unwrap().id.value, 1);
    assert_eq!(c.get_root(&EventId { value: 1 }).unwrap().id.value, 1);
    assert!(c.get_root(&EventId { value: 9 }).is_none());
}

#[test]
fn roots_and_leaves() {
    let c = tree();
    assert_eq!(sorted(ids(&c.get_root_events())), vec![1]);
    assert_eq!(sorted(ids(&c.get_leaf_events())), vec![3, 4]);
}

#[test]
fn correlate_by_time_type_and_metadata() {
    let mut c = tree();
    let mut tagged = Event::new_at(EventType::JobFailed, EventId { value: 5 }, 250);
    tagged.metadata.insert("host".to_string(), "a".to_string());
    c.add_event(tagged);
    let probe = ev(99, None, 200);
    assert_eq!(sorted(ids(&c.correlate_by_time(&probe, 50))), vec![2, 5]);
    assert_eq!(ids(&c.correlate_by_type(&probe, &[EventType::JobFailed])), vec![5]);
    assert_eq!(ids(&c.correlate_by_metadata(&probe, "host", "a")), vec![5]);
    assert!(c.correlate_by_metadata(&probe, "host", "b").is_empty());
}

#[test]
fn events_by_project_and_actor() {
    let mut c = EventCorrelator::new();
    let mut e = ev(1, None, 0);
    e.project_id = Some(ProjectId { value: 7 });
    e.actor_id = Some(ActorId { value: 8 });
    c.add_event(e);
    assert_eq!(ids(&c.get_events_by_project(&ProjectId { value: 7 })), vec![1]);
    assert_eq!(ids(&c.get_events_by_actor(&ActorId { value: 8 })), vec![1]);
    assert!(c.get_events_by_project(&ProjectId { value: 9 }).is_empty());
}

#[test]
fn stats_and_clear() {
    let mut c = tree();
    let s = c.stats();
    assert_eq!(s.total_events, 4);
    assert_eq!(s.total_parent_child_relationships, 3);
    assert_eq!(s.root_events, 1);
    assert_eq!(s.leaf_events, 2);
    c.clear();
    assert_eq!(c.stats().total_events, 0);
}

#[test]
fn chain_is_breadth_first_in_insertion_order() {
    let mut c = EventCorrelator::new();
    let r = Event::new(EventType::SystemStartup);
    let a = EventBuilder::new(EventType::JobCreated).parent_id(r.id).build();
    let g = EventBuilder::new(EventType::JobCreated).parent_id(a.id).build();
    let h = EventBuilder::new(EventType::JobCreated).parent_id(g.id).build();
    let s = EventBuilder::new(EventType::JobCreated).parent_id(r.id).build();
    let (rid, aid, gid, hid) = (r.id, a.id, g.id, h.id);
    for x in [r, a, g, h, s] {
        c.add_event(x);
    }
    let got: Vec<EventId> = c.get_chain(&aid).iter().map(|e| e.id).collect();
    assert_eq!(got, vec![rid, aid, gid, hid]);
}

#[test]
fn children_come_level_by_level() {
    // 1 -> 2, 1 -> 3, 2 -> 4, 3 -> 5; added with 3 before 2's child.
    let mut c = EventCorrelator::new();
    c.add_event(ev(1, None, 0));
    c.add_event(ev(2, Some(1), 0));
    c.add_event(ev(3, Some(1), 0));
    c.add_event(ev(5, Some(3), 0));
    c.add_event(ev(4, Some(2), 0));
    assert_eq!(ids(&c.get_chain(&EventId { value: 1 })), vec![1, 2, 3, 4, 5]);
}

#[test]
fn added_event_is_found_again() {
    let mut c = tree();
    c.add_event(ev(6, Some(3), 0));
    assert_eq!(c.get_event(&EventId { value: 6 }).unwrap().id.value, 6);
    assert_eq!(ids(&c.get_children(&EventId { value: 3 })), vec![6]);
}

#[test]
fn adding_an_event_extends_only_its_lookups() {
    let mut c = tree();
    let mut e = ev(5, Some(1), 500);
    e.project_id = Some(ProjectId { value: 7 });
    let mut f = ev(6, None, 600);
    f.project_id = Some(ProjectId { value: 8 });
    c.add_event(f);
    let before_other = ids(&c.get_children(&EventId { value: 2 }));
    c.add_event(e);
    assert_eq!(ids(&c.get_children(&EventId { value: 1 })), vec![2, 3, 5]);
    assert_eq!(ids(&c.get_events_by_project(&ProjectId { value: 7 })), vec![5]);
    assert_eq!(ids(&c.get_events_by_project(&ProjectId { value: 8 })), vec![6]);
    assert_eq!(ids(&c.get_children(&EventId { value: 2 })), before_other);
    assert_eq!(c.get_parent(&EventId { value: 5 }).unwrap().id.value, 1);
}
