//! Correlation of events: which event caused which, and which events belong
//! to a project, an operation or an actor.

use vstd::prelude::*;
use std::collections::HashMap;
use std::collections::HashSet;
use std::collections::VecDeque;
use crate::events::{Event, EventType, same_type};
use crate::ids::{ActorId, EventId, OperationId, ProjectId};
use crate::manager::key_list;

verus! {

broadcast use vstd::std_specs::hash::group_hash_axioms;

/// The list that `m` holds under `k`, or the empty list.
pub open spec fn list_at(m: Map<u128, Seq<EventId>>, k: u128) -> Seq<EventId> {
    if m.contains_key(k) {
        m[k]
    } else {
        Seq::empty()
    }
}

/// `m` with `id` appended to the list under `k`.
pub open spec fn appended(m: Map<u128, Seq<EventId>>, k: u128, id: EventId) -> Map<u128, Seq<EventId>> {
    m.insert(k, list_at(m, k).push(id))
}

/// Whether `events` holds the event of an identifier.
pub open spec fn recorded_in(events: Map<u128, Event>) -> spec_fn(EventId) -> bool {
    |i: EventId| events.contains_key(i.value)
}

/// The identifiers of `ids` whose event `events` holds, in order.
pub open spec fn present(events: Map<u128, Event>, ids: Seq<EventId>) -> Seq<EventId> {
    ids.filter(recorded_in(events))
}

/// `events` holds the event of each identifier of `ids`.
pub open spec fn all_recorded(events: Map<u128, Event>, ids: Seq<EventId>) -> bool {
    forall|i: int| 0 <= i < ids.len() ==> events.contains_key(#[trigger] ids[i].value)
}

/// `events` holds the event of each identifier listed in `m`.
pub open spec fn lists_recorded(events: Map<u128, Event>, m: Map<u128, Seq<EventId>>) -> bool {
    forall|k: u128| #[trigger] m.contains_key(k) ==> all_recorded(events, m[k])
}

/// Where `events` holds each event of `ids`, all of them are present.
proof fn lemma_present_all(events: Map<u128, Event>, ids: Seq<EventId>)
    requires
        all_recorded(events, ids),
    ensures
        present(events, ids) == ids,
    decreases ids.len(),
{
    reveal(Seq::filter);
    if ids.len() > 0 {
        let t = ids.drop_last();
        let x = ids.last();
        assert(ids[ids.len() - 1] == x);
        assert forall|i: int| 0 <= i < t.len() implies events.contains_key(#[trigger] t[i].value) by {
            assert(t[i] == ids[i]);
        }
        lemma_present_all(events, t);
        t.lemma_filter_push(x, recorded_in(events));
        assert(t.push(x) =~= ids);
    } else {
        assert(ids.filter(recorded_in(events)) =~= ids);
    }
}

/// Lists whose events are recorded stay so when events are added, and when
/// a recorded identifier is appended to one of them.
proof fn lemma_lists_grow(
    ev: Map<u128, Event>,
    ev2: Map<u128, Event>,
    m: Map<u128, Seq<EventId>>,
    k: u128,
    id: EventId,
)
    requires
        lists_recorded(ev, m),
        forall|x: u128| ev.contains_key(x) ==> #[trigger] ev2.contains_key(x),
        ev2.contains_key(id.value),
    ensures
        lists_recorded(ev2, m),
        lists_recorded(ev2, appended(m, k, id)),
{
    assert forall|j: u128| #[trigger] m.contains_key(j) implies all_recorded(ev2, m[j]) by {
        assert forall|i: int| 0 <= i < m[j].len() implies ev2.contains_key(#[trigger] m[j][i].value) by {
            assert(ev.contains_key(m[j][i].value));
        }
    }
    let a = appended(m, k, id);
    assert forall|j: u128| #[trigger] a.contains_key(j) implies all_recorded(ev2, a[j]) by {
        if j == k {
            let l = list_at(m, k);
            assert forall|i: int| 0 <= i < a[j].len() implies ev2.contains_key(#[trigger] a[j][i].value) by {
                if i < l.len() {
                    assert(a[j][i] == l[i]);
                    assert(m.contains_key(k));
                    assert(ev.contains_key(m[k][i].value));
                }
            }
        }
    }
}

/// How the list under `k` grows when `id` is appended under `key`: by
/// `id` where `key` is `k`, not at all elsewhere.
pub open spec fn grown_list(pre: Seq<EventId>, key: Option<u128>, k: u128, id: EventId) -> Seq<EventId> {
    if key == Some(k) {
        pre.push(id)
    } else {
        pre
    }
}

/// `r` holds copies of the events of `ids` that `events` holds, in order.
pub open spec fn copies_of(r: Seq<Event>, events: Map<u128, Event>, ids: Seq<EventId>) -> bool {
    &&& r.len() == present(events, ids).len()
    &&& forall|i: int|
        0 <= i < r.len() ==> (#[trigger] r[i]).same_as(events[present(events, ids)[i].value])
}

/// Appends `id` to the list that `m` holds under `k`.
fn append_at(m: &mut HashMap<u128, Vec<EventId>>, k: u128, id: EventId)
    ensures
        final(m)@.dom() == old(m)@.dom().insert(k),
        forall|x: u128| #[trigger] final(m)@.contains_key(x) && x != k ==> final(m)@[x] == old(m)@[x],
        final(m)@[k]@ == (if old(m)@.contains_key(k) { old(m)@[k]@ } else { Seq::empty() }).push(id),
{
    let mut list = match m.remove(&k) {
        Some(l) => l,
        None => Vec::new(),
    };
    list.push(id);
    m.insert(k, list);
    assert(final(m)@.dom() =~= old(m)@.dom().insert(k));
}


/// The walk from `id` up through the recorded parents, listing each
/// identifier whose event is recorded and stopping at the first that is not,
/// at one without a parent, or after `n` steps.
pub open spec fn ancestor_walk(events: Map<u128, Event>, parents: Map<u128, EventId>, id: u128, n: nat) -> Seq<u128>
    decreases n,
{
    if !events.contains_key(id) {
        Seq::empty()
    } else if !parents.contains_key(id) || n == 0 {
        seq![id]
    } else {
        seq![id] + ancestor_walk(events, parents, parents[id].value, (n - 1) as nat)
    }
}

/// The walk from `id` up through the recorded parents stops within `n`
/// steps.
pub open spec fn walk_ends(events: Map<u128, Event>, parents: Map<u128, EventId>, id: u128, n: nat) -> bool
    decreases n,
{
    !events.contains_key(id) || !parents.contains_key(id) || (n > 0 && walk_ends(
        events,
        parents,
        parents[id].value,
        (n - 1) as nat,
    ))
}

/// The walk up from `id` stops: the recorded parents of `id` do not form a
/// cycle. `get_chain` does not return on the inputs where this fails.
pub open spec fn chain_is_finite(c: EventCorrelator, id: u128) -> bool {
    exists|n: nat| walk_ends(c.events(), c.parents(), id, n)
}

/// The identifiers of `id` and its recorded ancestors, from `id` upwards.
pub open spec fn ancestors(c: EventCorrelator, id: u128) -> Seq<u128> {
    ancestor_walk(c.events(), c.parents(), id, choose|n: nat| walk_ends(c.events(), c.parents(), id, n))
}

/// `b` is recorded as a child of `a`.
pub open spec fn child_step(children: Map<u128, Seq<EventId>>, a: u128, b: u128) -> bool {
    list_at(children, a).contains(EventId { value: b })
}

/// `p` is a path of recorded parent-to-child steps.
pub open spec fn is_path(children: Map<u128, Seq<EventId>>, p: Seq<u128>) -> bool {
    &&& p.len() >= 1
    &&& forall|i: int| 0 <= i < p.len() - 1 ==> child_step(children, #[trigger] p[i], p[i + 1])
}

/// `b` is `a` or one of its recorded descendants.
pub open spec fn descendant(children: Map<u128, Seq<EventId>>, a: u128, b: u128) -> bool {
    exists|p: Seq<u128>| #[trigger] is_path(children, p) && p[0] == a && p.last() == b
}

/// The state of the breadth-first walk down from an event: the identifiers
/// seen, the queue of those whose children are still to be visited, and the
/// recorded events met, in the order met.
pub type Walk = (Set<u128>, Seq<u128>, Seq<u128>);

/// `w` after meeting `c`: an identifier not seen before is seen, joins the
/// back of the queue and, where its event is recorded, the events met.
pub open spec fn bfs_visit(ev: Map<u128, Event>, w: Walk, c: u128) -> Walk {
    if w.0.contains(c) {
        w
    } else {
        (w.0.insert(c), w.1.push(c), if ev.contains_key(c) { w.2.push(c) } else { w.2 })
    }
}

/// `w` after meeting each of `kids`, in order.
pub open spec fn bfs_visit_all(ev: Map<u128, Event>, w: Walk, kids: Seq<EventId>) -> Walk
    decreases kids.len(),
{
    if kids.len() == 0 {
        w
    } else {
        bfs_visit(ev, bfs_visit_all(ev, w, kids.drop_last()), kids.last().value)
    }
}

/// One step of the walk: the front of the queue leaves it, and its
/// recorded children are met in the order they were added.
pub open spec fn bfs_step(children: Map<u128, Seq<EventId>>, ev: Map<u128, Event>, w: Walk) -> Walk {
    if w.1.len() == 0 {
        w
    } else {
        bfs_visit_all(ev, (w.0, w.1.drop_first(), w.2), list_at(children, w.1[0]))
    }
}

/// The walk down from `id` after `n` steps.
pub open spec fn bfs_after(children: Map<u128, Seq<EventId>>, ev: Map<u128, Event>, id: u128, n: nat) -> Walk
    decreases n,
{
    if n == 0 {
        (set![id], seq![id], Seq::empty())
    } else {
        bfs_step(children, ev, bfs_after(children, ev, id, (n - 1) as nat))
    }
}

/// The recorded descendants of `id` in breadth-first order: level by
/// level, the children of each event in the order they were added, each
/// once.
pub open spec fn descendant_order(c: EventCorrelator, id: u128) -> Seq<u128> {
    bfs_after(
        c.children(),
        c.events(),
        id,
        choose|n: nat| bfs_after(c.children(), c.events(), id, n).1.len() == 0,
    ).2
}

proof fn lemma_bfs_stable(children: Map<u128, Seq<EventId>>, ev: Map<u128, Event>, id: u128, n: nat, m: nat)
    requires
        bfs_after(children, ev, id, n).1.len() == 0,
        n <= m,
    ensures
        bfs_after(children, ev, id, m) == bfs_after(children, ev, id, n),
    decreases m - n,
{
    if m > n {
        lemma_bfs_stable(children, ev, id, n, (m - 1) as nat);
    }
}

/// What `get_chain(id)` returns: copies of the recorded ancestors of `id`,
/// the topmost first and `id` itself last, followed by copies of the
/// recorded descendants of `id`, each once, in breadth-first order (see
/// `descendant_order`).
pub open spec fn is_chain(r: Seq<Event>, c: EventCorrelator, id: u128) -> bool {
    let anc = ancestors(c, id).reverse();
    let d = r.skip(anc.len() as int);
    &&& r.len() >= anc.len()
    &&& forall|i: int| 0 <= i < anc.len() ==> (#[trigger] r[i]).same_as(c.events()[anc[i]])
    &&& forall|i: int|
        0 <= i < d.len() ==> {
            &&& (#[trigger] d[i]).id.value != id
            &&& c.events().contains_key(d[i].id.value)
            &&& descendant(c.children(), id, d[i].id.value)
            &&& d[i].same_as(c.events()[d[i].id.value])
        }
    &&& forall|i: int, j: int| 0 <= i < j < d.len() ==> (#[trigger] d[i]).id != (#[trigger] d[j]).id
    &&& forall|b: u128|
        b != id && #[trigger] c.events().contains_key(b) && descendant(c.children(), id, b) ==> exists|i: int|
            0 <= i < d.len() && d[i].id.value == b
    &&& d.len() == descendant_order(c, id).len()
    &&& forall|i: int| 0 <= i < d.len() ==> (#[trigger] d[i]).id.value == descendant_order(c, id)[i]
}

/// The identifiers that the lists of `children` under `keys` hold.
pub open spec fn listed_ids(children: Map<u128, Seq<EventId>>, keys: Set<u128>) -> Set<u128> {
    Set::new(
        |x: u128|
            exists|k: u128, i: int|
                keys.contains(k) && 0 <= i < list_at(children, k).len() && #[trigger] list_at(
                    children,
                    k,
                )[i].value == x,
    )
}

proof fn lemma_listed_ids_finite(children: Map<u128, Seq<EventId>>, keys: Set<u128>)
    requires
        keys.finite(),
    ensures
        listed_ids(children, keys).finite(),
    decreases keys.len(),
{
    if keys.len() == 0 {
        assert(keys =~= Set::empty());
        assert(listed_ids(children, keys) =~= Set::empty());
    } else {
        let k = keys.choose();
        let rest = keys.remove(k);
        lemma_listed_ids_finite(children, rest);
        let l = list_at(children, k);
        let lv = l.map_values(|e: EventId| e.value);
        let s = lv.to_set();
        assert(listed_ids(children, keys) =~= listed_ids(children, rest).union(s)) by {
            assert forall|x: u128| listed_ids(children, keys).contains(x) implies listed_ids(
                children,
                rest,
            ).union(s).contains(x) by {
                let (k2, i) = choose|k2: u128, i: int|
                    keys.contains(k2) && 0 <= i < list_at(children, k2).len() && #[trigger] list_at(
                        children,
                        k2,
                    )[i].value == x;
                if k2 == k {
                    assert(lv[i] == x);
                    assert(lv.contains(x));
                } else {
                    assert(rest.contains(k2));
                }
            }
            assert forall|x: u128| listed_ids(children, rest).union(s).contains(x) implies listed_ids(
                children,
                keys,
            ).contains(x) by {
                if s.contains(x) {
                    let i = choose|i: int| 0 <= i < lv.len() && #[trigger] lv[i] == x;
                    assert(list_at(children, k)[i].value == x);
                } else {
                    let (k2, i) = choose|k2: u128, i: int|
                        rest.contains(k2) && 0 <= i < list_at(children, k2).len() && #[trigger] list_at(
                            children,
                            k2,
                        )[i].value == x;
                    assert(list_at(children, k2)[i].value == x);
                }
            }
        }
    }
}

proof fn lemma_walk_step(events: Map<u128, Event>, parents: Map<u128, EventId>, id: u128, n: nat)
    requires
        walk_ends(events, parents, id, n),
        events.contains_key(id),
    ensures
        parents.contains_key(id) ==> n > 0 && walk_ends(events, parents, parents[id].value, (n - 1) as nat)
            && ancestor_walk(events, parents, id, n) == seq![id] + ancestor_walk(
            events,
            parents,
            parents[id].value,
            (n - 1) as nat,
        ),
        !parents.contains_key(id) ==> ancestor_walk(events, parents, id, n) == seq![id],
{
}

proof fn lemma_walk_stable(events: Map<u128, Event>, parents: Map<u128, EventId>, id: u128, n: nat, m: nat)
    requires
        walk_ends(events, parents, id, n),
        n <= m,
    ensures
        walk_ends(events, parents, id, m),
        ancestor_walk(events, parents, id, n) == ancestor_walk(events, parents, id, m),
    decreases n,
{
    if events.contains_key(id) && parents.contains_key(id) {
        lemma_walk_stable(events, parents, parents[id].value, (n - 1) as nat, (m - 1) as nat);
    }
}

proof fn lemma_walk_any(events: Map<u128, Event>, parents: Map<u128, EventId>, id: u128, n: nat, m: nat)
    requires
        walk_ends(events, parents, id, n),
        walk_ends(events, parents, id, m),
    ensures
        ancestor_walk(events, parents, id, n) == ancestor_walk(events, parents, id, m),
{
    if n <= m {
        lemma_walk_stable(events, parents, id, n, m);
    } else {
        lemma_walk_stable(events, parents, id, m, n);
    }
}

proof fn lemma_path_extend(children: Map<u128, Seq<EventId>>, a: u128, c: u128, b: u128)
    requires
        descendant(children, a, c),
        child_step(children, c, b),
    ensures
        descendant(children, a, b),
{
    let p = choose|p: Seq<u128>| #[trigger] is_path(children, p) && p[0] == a && p.last() == c;
    let q = p.push(b);
    assert forall|i: int| 0 <= i < q.len() - 1 implies child_step(children, #[trigger] q[i], q[i + 1]) by {
        if i < p.len() - 1 {
            assert(q[i] == p[i] && q[i + 1] == p[i + 1]);
        } else {
            assert(q[i] == c && q[i + 1] == b);
        }
    }
    assert(is_path(children, q) && q[0] == a && q.last() == b);
}

proof fn lemma_closed_contains_path(
    children: Map<u128, Seq<EventId>>,
    visited: Set<u128>,
    p: Seq<u128>,
)
    requires
        is_path(children, p),
        visited.contains(p[0]),
        forall|v: u128, j: int|
            visited.contains(v) && 0 <= j < list_at(children, v).len() ==> visited.contains(
                #[trigger] list_at(children, v)[j].value,
            ),
    ensures
        visited.contains(p.last()),
    decreases p.len(),
{
    if p.len() > 1 {
        let q = p.drop_last();
        assert forall|i: int| 0 <= i < q.len() - 1 implies child_step(children, #[trigger] q[i], q[i + 1]) by {
            assert(q[i] == p[i] && q[i + 1] == p[i + 1]);
        }
        lemma_closed_contains_path(children, visited, q);
        let c = q.last();
        assert(child_step(children, p[p.len() - 2], p[p.len() - 1]));
        let j = choose|j: int| 0 <= j < list_at(children, c).len() && list_at(children, c)[j] == EventId { value: p.last() };
        assert(list_at(children, c)[j].value == p.last());
    }
}

/// `b` lies in the chain of `a`: an ancestor of `a` whose event is
/// recorded, `a` itself where recorded, or a recorded descendant of `a`.
pub open spec fn related(c: EventCorrelator, a: u128, b: u128) -> bool {
    ||| ancestors(c, a).contains(b)
    ||| (b != a && c.events().contains_key(b) && descendant(c.children(), a, b))
}

/// The walk from `id` up through the recorded parents, whatever events are
/// recorded, reaches one without a parent within `n` steps.
pub open spec fn parent_walk_ends(parents: Map<u128, EventId>, id: u128, n: nat) -> bool
    decreases n,
{
    !parents.contains_key(id) || (n > 0 && parent_walk_ends(parents, parents[id].value, (n - 1) as nat))
}

/// Where the walk of `parent_walk_ends` stops after at most `n` steps.
pub open spec fn parent_walk_end(parents: Map<u128, EventId>, id: u128, n: nat) -> u128
    decreases n,
{
    if !parents.contains_key(id) || n == 0 {
        id
    } else {
        parent_walk_end(parents, parents[id].value, (n - 1) as nat)
    }
}

/// Following the recorded parents up from `id` reaches an identifier
/// without a parent.
pub open spec fn root_is_reached(c: EventCorrelator, id: u128) -> bool {
    exists|n: nat| parent_walk_ends(c.parents(), id, n)
}

/// The identifier reached from `id` by following the recorded parents to
/// one that has none.
pub open spec fn root_of(c: EventCorrelator, id: u128) -> u128 {
    parent_walk_end(c.parents(), id, choose|n: nat| parent_walk_ends(c.parents(), id, n))
}

proof fn lemma_parent_walk_stable(parents: Map<u128, EventId>, id: u128, n: nat, m: nat)
    requires
        parent_walk_ends(parents, id, n),
        n <= m,
    ensures
        parent_walk_ends(parents, id, m),
        parent_walk_end(parents, id, n) == parent_walk_end(parents, id, m),
    decreases n,
{
    if parents.contains_key(id) {
        lemma_parent_walk_stable(parents, parents[id].value, (n - 1) as nat, (m - 1) as nat);
    }
}

proof fn lemma_parent_walk_any(parents: Map<u128, EventId>, id: u128, n: nat, m: nat)
    requires
        parent_walk_ends(parents, id, n),
        parent_walk_ends(parents, id, m),
    ensures
        parent_walk_end(parents, id, n) == parent_walk_end(parents, id, m),
{
    if n <= m {
        lemma_parent_walk_stable(parents, id, n, m);
    } else {
        lemma_parent_walk_stable(parents, id, m, n);
    }
}

/// The event has no parent.
pub open spec fn is_root_event(e: Event) -> bool {
    e.parent_id is None
}

/// No child is recorded under the event.
pub open spec fn is_leaf_event(c: EventCorrelator, e: Event) -> bool {
    list_at(c.children(), e.id.value).len() == 0
}

/// The time of `e` lies within `window` milliseconds of `target`.
pub open spec fn within(e: Event, target: i64, window: u64) -> bool {
    let d = e.timestamp - target;
    (if d >= 0 { d } else { -d }) <= window
}

/// An event is within `window` milliseconds of `target` exactly when its
/// timestamp lies no more than `window` before or after `target`.
pub proof fn within_is_two_sided(e: Event, target: i64, window: u64)
    ensures
        within(e, target, window) <==> target - window <= e.timestamp <= target + window,
{
}

/// The type of `e` is one of `types`.
pub open spec fn of_types(e: Event, types: Seq<EventType>) -> bool {
    exists|j: int| 0 <= j < types.len() && same_type(#[trigger] types[j], e.event_type)
}

/// The metadata of `e` holds `value` under `key`.
pub open spec fn has_metadata(e: Event, key: Seq<char>, value: Seq<char>) -> bool {
    e.metadata.view().contains_key(key) && e.metadata.view()[key]@ == value
}

/// `r` lists copies of exactly the events of `m` that `p` holds of, each
/// once, in some order.
pub open spec fn lists_matching(r: Seq<Event>, m: Map<u128, Event>, p: spec_fn(Event) -> bool) -> bool {
    &&& forall|i: int|
        0 <= i < r.len() ==> m.contains_key(#[trigger] r[i].id.value) && r[i].same_as(m[r[i].id.value])
            && p(m[r[i].id.value])
    &&& forall|i: int, j: int| 0 <= i < j < r.len() ==> #[trigger] r[i].id != #[trigger] r[j].id
    &&& forall|k: u128|
        #[trigger] m.contains_key(k) && p(m[k]) ==> exists|i: int| 0 <= i < r.len() && r[i].id.value == k
}

/// The number of events of `m` that `p` holds of.
pub open spec fn matching_count(m: Map<u128, Event>, p: spec_fn(Event) -> bool) -> nat {
    m.dom().filter(|k: u128| p(m[k])).len()
}

/// The number of parent-child links recorded: the lengths of the lists of
/// children, summed.
pub open spec fn total_links(children: Map<u128, Seq<EventId>>) -> int {
    children.dom().fold(0int, |acc: int, k: u128| acc + list_at(children, k).len())
}

proof fn lemma_matching_len(r: Seq<Event>, m: Map<u128, Event>, p: spec_fn(Event) -> bool)
    requires
        lists_matching(r, m, p),
        m.dom().finite(),
        forall|k: u128| #[trigger] m.contains_key(k) ==> m[k].id.value == k,
    ensures
        r.len() == matching_count(m, p),
{
    let ids = r.map_values(|e: Event| e.id.value);
    let sel = m.dom().filter(|k: u128| p(m[k]));
    assert(ids.no_duplicates()) by {
        assert forall|i: int, j: int| 0 <= i < ids.len() && 0 <= j < ids.len() && i != j implies ids[i] != ids[j] by {
            if i < j {
                assert(r[i].id != r[j].id);
            } else {
                assert(r[j].id != r[i].id);
            }
        }
    }
    assert(ids.to_set() =~= sel) by {
        assert forall|k: u128| ids.to_set().contains(k) implies sel.contains(k) by {
            let i = choose|i: int| 0 <= i < ids.len() && ids[i] == k;
            assert(m.contains_key(r[i].id.value));
        }
        assert forall|k: u128| sel.contains(k) implies ids.to_set().contains(k) by {
            let i = choose|i: int| 0 <= i < r.len() && r[i].id.value == k;
            assert(ids[i] == k);
        }
    }
    ids.unique_seq_to_set();
}

proof fn lemma_walk_recorded(events: Map<u128, Event>, parents: Map<u128, EventId>, id: u128, n: nat)
    ensures
        forall|i: int|
            0 <= i < ancestor_walk(events, parents, id, n).len() ==> events.contains_key(
                #[trigger] ancestor_walk(events, parents, id, n)[i],
            ),
    decreases n,
{
    if events.contains_key(id) && parents.contains_key(id) && n > 0 {
        lemma_walk_recorded(events, parents, parents[id].value, (n - 1) as nat);
        let w = ancestor_walk(events, parents, id, n);
        let rest = ancestor_walk(events, parents, parents[id].value, (n - 1) as nat);
        assert forall|i: int| 0 <= i < w.len() implies events.contains_key(#[trigger] w[i]) by {
            if i > 0 {
                assert(w[i] == rest[i - 1]);
            }
        }
    }
}

proof fn lemma_chain_lists(r: Seq<Event>, c: EventCorrelator, a: u128, b: u128)
    requires
        is_chain(r, c, a),
        c.wf(),
    ensures
        (exists|i: int| 0 <= i < r.len() && r[i].id.value == b) <==> related(c, a, b),
{
    let anc = ancestors(c, a).reverse();
    let d = r.skip(anc.len() as int);
    lemma_walk_recorded(c.events(), c.parents(), a, choose|n: nat| walk_ends(c.events(), c.parents(), a, n));
    if exists|i: int| 0 <= i < r.len() && r[i].id.value == b {
        let i = choose|i: int| 0 <= i < r.len() && r[i].id.value == b;
        if i < anc.len() {
            assert(r[i].same_as(c.events()[anc[i]]));
            assert(ancestors(c, a)[anc.len() - 1 - i] == anc[i]);
        } else {
            assert(d[i - anc.len()] == r[i]);
        }
    }
    if related(c, a, b) {
        if ancestors(c, a).contains(b) {
            let j = choose|j: int| 0 <= j < ancestors(c, a).len() && ancestors(c, a)[j] == b;
            let i = anc.len() - 1 - j;
            assert(anc[i] == b);
            assert(r[i].same_as(c.events()[anc[i]]));
        } else {
            let i = choose|i: int| 0 <= i < d.len() && d[i].id.value == b;
            assert(r[i + anc.len()] == d[i]);
        }
    }
}

/// A recorded event lies in its own chain.
pub proof fn event_in_own_chain(c: EventCorrelator, id: u128)
    requires
        c.events().contains_key(id),
        chain_is_finite(c, id),
    ensures
        related(c, id, id),
{
    let n = choose|n: nat| walk_ends(c.events(), c.parents(), id, n);
    lemma_walk_step(c.events(), c.parents(), id, n);
    assert(ancestors(c, id)[0] == id);
}

/// The recorded parent of an event, where the parent is recorded too, lies
/// in the event's chain.
pub proof fn parent_in_chain(c: EventCorrelator, child: u128)
    requires
        c.events().contains_key(child),
        c.parents().contains_key(child),
        c.events().contains_key(c.parents()[child].value),
        chain_is_finite(c, child),
    ensures
        related(c, child, c.parents()[child].value),
{
    let n = choose|n: nat| walk_ends(c.events(), c.parents(), child, n);
    lemma_walk_step(c.events(), c.parents(), child, n);
    let p = c.parents()[child].value;
    lemma_walk_step(c.events(), c.parents(), p, (n - 1) as nat);
    let w = ancestors(c, child);
    assert(w[1] == p);
}

/// A recorded child of an event, other than the event itself, lies in the
/// event's chain.
pub proof fn child_in_chain(c: EventCorrelator, parent: u128, child: u128)
    requires
        c.events().contains_key(child),
        child != parent,
        child_step(c.children(), parent, child),
    ensures
        related(c, parent, child),
{
    let p = seq![parent, child];
    assert(is_path(c.children(), p));
    assert(descendant(c.children(), parent, child));
}

/// After an event is added, looking it up gives it back, and it is the
/// newest child of its parent and the newest event of its project,
/// operation and actor.
pub proof fn added_event_is_found(pre: EventCorrelator, post: EventCorrelator, event: Event)
    requires
        post.events() == pre.events().insert(event.id.value, event),
        post.children() == match event.parent_id {
            Some(p) => appended(pre.children(), p.value, event.id),
            None => pre.children(),
        },
        post.parents() == match event.parent_id {
            Some(p) => pre.parents().insert(event.id.value, p),
            None => pre.parents(),
        },
        post.by_project() == match event.project_id {
            Some(p) => appended(pre.by_project(), p.value, event.id),
            None => pre.by_project(),
        },
        post.by_operation() == match event.operation_id {
            Some(p) => appended(pre.by_operation(), p.value, event.id),
            None => pre.by_operation(),
        },
        post.by_actor() == match event.actor_id {
            Some(p) => appended(pre.by_actor(), p.value, event.id),
            None => pre.by_actor(),
        },
    ensures
        post.events().contains_key(event.id.value),
        post.events()[event.id.value] == event,
        event.parent_id matches Some(p) ==> post.parents()[event.id.value] == p && list_at(post.children(), p.value).last() == event.id
            && list_at(post.children(), p.value).len() == list_at(pre.children(), p.value).len() + 1,
        event.project_id matches Some(p) ==> list_at(post.by_project(), p.value).last() == event.id,
        event.operation_id matches Some(p) ==> list_at(post.by_operation(), p.value).last() == event.id,
        event.actor_id matches Some(p) ==> list_at(post.by_actor(), p.value).last() == event.id,
{
}

/// Each event of a well-formed correlator is stored under the value of its
/// own identifier, so a lookup by identifier gives the event with that
/// identifier.
pub proof fn events_keyed(c: EventCorrelator)
    requires
        c.wf(),
    ensures
        forall|k: u128| #[trigger] c.events().contains_key(k) ==> c.events()[k].id.value == k,
{
}

/// Where every identifier listed in `m` is recorded, the lookup under `k`
/// gives the whole list under `k`.
proof fn lemma_list_present(events: Map<u128, Event>, m: Map<u128, Seq<EventId>>, k: u128)
    requires
        lists_recorded(events, m),
    ensures
        present(events, list_at(m, k)) == list_at(m, k),
{
    if m.contains_key(k) {
        lemma_present_all(events, m[k]);
    } else {
        lemma_present_all(events, Seq::<EventId>::empty());
    }
}

/// Adding an event that was not recorded before makes each lookup that
/// lists it (children of its parent, events of its project, operation and
/// actor) give what it gave before followed by the new event; every other
/// lookup gives what it gave before, and the events recorded before are
/// unchanged.
pub proof fn add_event_extends_lookups(pre: EventCorrelator, post: EventCorrelator, event: Event, k: u128)
    requires
        pre.wf(),
        post.wf(),
        !pre.events().contains_key(event.id.value),
        post.events() == pre.events().insert(event.id.value, event),
        post.children() == match event.parent_id {
            Some(p) => appended(pre.children(), p.value, event.id),
            None => pre.children(),
        },
        post.by_project() == match event.project_id {
            Some(p) => appended(pre.by_project(), p.value, event.id),
            None => pre.by_project(),
        },
        post.by_operation() == match event.operation_id {
            Some(p) => appended(pre.by_operation(), p.value, event.id),
            None => pre.by_operation(),
        },
        post.by_actor() == match event.actor_id {
            Some(p) => appended(pre.by_actor(), p.value, event.id),
            None => pre.by_actor(),
        },
    ensures
        present(post.events(), list_at(post.children(), k)) == grown_list(
            present(pre.events(), list_at(pre.children(), k)),
            match event.parent_id {
                Some(p) => Some(p.value),
                None => None,
            },
            k,
            event.id,
        ),
        present(post.events(), list_at(post.by_project(), k)) == grown_list(
            present(pre.events(), list_at(pre.by_project(), k)),
            match event.project_id {
                Some(p) => Some(p.value),
                None => None,
            },
            k,
            event.id,
        ),
        present(post.events(), list_at(post.by_operation(), k)) == grown_list(
            present(pre.events(), list_at(pre.by_operation(), k)),
            match event.operation_id {
                Some(p) => Some(p.value),
                None => None,
            },
            k,
            event.id,
        ),
        present(post.events(), list_at(post.by_actor(), k)) == grown_list(
            present(pre.events(), list_at(pre.by_actor(), k)),
            match event.actor_id {
                Some(p) => Some(p.value),
                None => None,
            },
            k,
            event.id,
        ),
        forall|x: u128| #[trigger] pre.events().contains_key(x) ==> post.events()[x] == pre.events()[x],
{
    lemma_list_present(pre.events(), pre.children(), k);
    lemma_list_present(pre.events(), pre.by_project(), k);
    lemma_list_present(pre.events(), pre.by_operation(), k);
    lemma_list_present(pre.events(), pre.by_actor(), k);
    lemma_list_present(post.events(), post.children(), k);
    lemma_list_present(post.events(), post.by_project(), k);
    lemma_list_present(post.events(), post.by_operation(), k);
    lemma_list_present(post.events(), post.by_actor(), k);
}

/// How `select_events` picks events.
enum Pick<'a> {
    Roots,
    Leaves,
    Near(i64, u64),
    Types(&'a [EventType]),
    Meta(&'a str, &'a str),
}

/// Whether `pick` picks the event `e` of `c`.
spec fn picks(c: EventCorrelator, pick: Pick, e: Event) -> bool {
    match pick {
        Pick::Roots => is_root_event(e),
        Pick::Leaves => is_leaf_event(c, e),
        Pick::Near(target, window) => within(e, target, window),
        Pick::Types(types) => of_types(e, types@),
        Pick::Meta(key, value) => has_metadata(e, key@, value@),
    }
}

/// Tracks events and their relations: each event by identifier, the
/// children recorded under each parent, the parent of each child, and the
/// events of each project, operation and actor.
pub struct EventCorrelator {
    events: HashMap<u128, Event>,
    parent_to_children: HashMap<u128, Vec<EventId>>,
    child_to_parent: HashMap<u128, EventId>,
    project_to_events: HashMap<u128, Vec<EventId>>,
    operation_to_events: HashMap<u128, Vec<EventId>>,
    actor_to_events: HashMap<u128, Vec<EventId>>,
}

/// Counts that describe a correlator.
#[derive(Debug)]
pub struct CorrelatorStats {
    pub total_events: usize,
    pub total_projects: usize,
    pub total_operations: usize,
    pub total_actors: usize,
    pub total_parent_child_relationships: usize,
    pub root_events: usize,
    pub leaf_events: usize,
}

/// The lists of a map of vectors, as sequences.
pub open spec fn lists(m: Map<u128, Vec<EventId>>) -> Map<u128, Seq<EventId>> {
    Map::new(|k: u128| m.contains_key(k), |k: u128| m[k]@)
}

impl EventCorrelator {
    /// The events, by the value of their identifier.
    pub closed spec fn events(self) -> Map<u128, Event> {
        self.events@
    }

    /// The children recorded under each parent.
    pub closed spec fn children(self) -> Map<u128, Seq<EventId>> {
        lists(self.parent_to_children@)
    }

    /// The parent of each child.
    pub closed spec fn parents(self) -> Map<u128, EventId> {
        self.child_to_parent@
    }

    /// The events of each project.
    pub closed spec fn by_project(self) -> Map<u128, Seq<EventId>> {
        lists(self.project_to_events@)
    }

    /// The events of each operation.
    pub closed spec fn by_operation(self) -> Map<u128, Seq<EventId>> {
        lists(self.operation_to_events@)
    }

    /// The events of each actor.
    pub closed spec fn by_actor(self) -> Map<u128, Seq<EventId>> {
        lists(self.actor_to_events@)
    }

    /// Each event is stored under the value of its own identifier, and
    /// every identifier listed under a parent, a project, an operation or
    /// an actor is that of a recorded event.
    pub closed spec fn wf(self) -> bool {
        &&& forall|k: u128| #[trigger] self.events@.contains_key(k) ==> self.events@[k].id.value == k
        &&& lists_recorded(self.events@, self.children())
        &&& lists_recorded(self.events@, self.by_project())
        &&& lists_recorded(self.events@, self.by_operation())
        &&& lists_recorded(self.events@, self.by_actor())
    }

    /// An empty correlator.
    pub fn new() -> (r: EventCorrelator)
        ensures
            r.wf(),
            r.events().is_empty(),
            r.children().is_empty(),
            r.parents().is_empty(),
            r.by_project().is_empty(),
            r.by_operation().is_empty(),
            r.by_actor().is_empty(),
    {
        let r = EventCorrelator {
            events: HashMap::new(),
            parent_to_children: HashMap::new(),
            child_to_parent: HashMap::new(),
            project_to_events: HashMap::new(),
            operation_to_events: HashMap::new(),
            actor_to_events: HashMap::new(),
        };
        assert(r.children() =~= Map::empty());
        assert(r.by_project() =~= Map::empty());
        assert(r.by_operation() =~= Map::empty());
        assert(r.by_actor() =~= Map::empty());
        r
    }

    /// Records an event, replacing any event with the same identifier; its
    /// identifier is appended to the children of its parent and to the
    /// events of its project, operation and actor, and its parent is
    /// recorded.
    pub fn add_event(&mut self, event: Event)
        requires
            old(self).wf(),
        ensures
            final(self).wf(),
            final(self).events() == old(self).events().insert(event.id.value, event),
            final(self).children() == match event.parent_id {
                Some(p) => appended(old(self).children(), p.value, event.id),
                None => old(self).children(),
            },
            final(self).parents() == match event.parent_id {
                Some(p) => old(self).parents().insert(event.id.value, p),
                None => old(self).parents(),
            },
            final(self).by_project() == match event.project_id {
                Some(p) => appended(old(self).by_project(), p.value, event.id),
                None => old(self).by_project(),
            },
            final(self).by_operation() == match event.operation_id {
                Some(p) => appended(old(self).by_operation(), p.value, event.id),
                None => old(self).by_operation(),
            },
            final(self).by_actor() == match event.actor_id {
                Some(p) => appended(old(self).by_actor(), p.value, event.id),
                None => old(self).by_actor(),
            },
    {
        let ghost pre = *self;
        let id = event.id;
        let parent = event.parent_id;
        let project = event.project_id;
        let operation = event.operation_id;
        let actor = event.actor_id;
        self.events.insert(id.value, event);
        if let Some(p) = parent {
            append_at(&mut self.parent_to_children, p.value, id);
            self.child_to_parent.insert(id.value, p);
            assert(self.children() =~= appended(pre.children(), p.value, id));
        }
        if let Some(p) = project {
            append_at(&mut self.project_to_events, p.value, id);
            assert(self.by_project() =~= appended(pre.by_project(), p.value, id));
        }
        if let Some(p) = operation {
            append_at(&mut self.operation_to_events, p.value, id);
            assert(self.by_operation() =~= appended(pre.by_operation(), p.value, id));
        }
        if let Some(p) = actor {
            append_at(&mut self.actor_to_events, p.value, id);
            assert(self.by_actor() =~= appended(pre.by_actor(), p.value, id));
        }
        proof {
            let ev = pre.events@;
            let ev2 = self.events@;
            assert(ev2.contains_key(id.value));
            lemma_lists_grow(ev, ev2, pre.children(), 0, id);
            lemma_lists_grow(ev, ev2, pre.by_project(), 0, id);
            lemma_lists_grow(ev, ev2, pre.by_operation(), 0, id);
            lemma_lists_grow(ev, ev2, pre.by_actor(), 0, id);
            if let Some(p) = parent {
                lemma_lists_grow(ev, ev2, pre.children(), p.value, id);
            }
            if let Some(p) = project {
                lemma_lists_grow(ev, ev2, pre.by_project(), p.value, id);
            }
            if let Some(p) = operation {
                lemma_lists_grow(ev, ev2, pre.by_operation(), p.value, id);
            }
            if let Some(p) = actor {
                lemma_lists_grow(ev, ev2, pre.by_actor(), p.value, id);
            }
        }
    }

    /// A copy of the event with the given identifier, if there is one.
    pub fn get_event(&self, event_id: &EventId) -> (r: Option<Event>)
        ensures
            r is Some <==> self.events().contains_key(event_id.value),
            r is Some ==> r->0.same_as(self.events()[event_id.value]),
            self.wf() && r is Some ==> r->0.id == *event_id,
    {
        match self.events.get(&event_id.value) {
            Some(e) => Some(e.duplicate()),
            None => None,
        }
    }

    /// Copies of the events of `ids` that are recorded, in order.
    fn collect(&self, ids: &Vec<EventId>) -> (r: Vec<Event>)
        ensures
            copies_of(r@, self.events(), ids@),
    {
        let ghost pred = recorded_in(self.events@);
        let mut r: Vec<Event> = Vec::new();
        let mut i: usize = 0;
        proof {
            assert(ids@.take(0) =~= Seq::<EventId>::empty());
            reveal(Seq::filter);
        }
        while i < ids.len()
            invariant
                i <= ids@.len(),
                pred == recorded_in(self.events@),
                r@.len() == ids@.take(i as int).filter(pred).len(),
                forall|a: int|
                    0 <= a < r@.len() ==> (#[trigger] r@[a]).same_as(
                        self.events@[ids@.take(i as int).filter(pred)[a].value],
                    ),
            decreases ids@.len() - i,
        {
            let id = ids[i];
            proof {
                assert(ids@.take(i + 1) =~= ids@.take(i as int).push(id));
                ids@.take(i as int).lemma_filter_push(id, pred);
            }
            match self.events.get(&id.value) {
                Some(e) => {
                    r.push(e.duplicate());
                },
                None => {},
            }
            i = i + 1;
        }
        proof {
            assert(ids@.take(ids@.len() as int) =~= ids@);
        }
        r
    }

    /// Copies of the recorded children of an event, in the order they were
    /// added.
    pub fn get_children(&self, parent_id: &EventId) -> (r: Vec<Event>)
        ensures
            copies_of(r@, self.events(), list_at(self.children(), parent_id.value)),
    {
        match self.parent_to_children.get(&parent_id.value) {
            Some(ids) => self.collect(ids),
            None => {
                proof {
                    reveal(Seq::filter);
                }
                Vec::new()
            },
        }
    }

    /// A copy of the parent of an event, if one is recorded and the parent
    /// event is known.
    pub fn get_parent(&self, child_id: &EventId) -> (r: Option<Event>)
        ensures
            r is Some <==> (self.parents().contains_key(child_id.value) && self.events().contains_key(
                self.parents()[child_id.value].value,
            )),
            r is Some ==> r->0.same_as(self.events()[self.parents()[child_id.value].value]),
    {
        match self.child_to_parent.get(&child_id.value) {
            Some(p) => self.get_event(p),
            None => None,
        }
    }

    /// Copies of the recorded events of a project, in the order they were
    /// added.
    pub fn get_events_by_project(&self, project_id: &ProjectId) -> (r: Vec<Event>)
        ensures
            copies_of(r@, self.events(), list_at(self.by_project(), project_id.value)),
    {
        match self.project_to_events.get(&project_id.value) {
            Some(ids) => self.collect(ids),
            None => {
                proof {
                    reveal(Seq::filter);
                }
                Vec::new()
            },
        }
    }

    /// Copies of the recorded events of an operation, in the order they were
    /// added.
    pub fn get_events_by_operation(&self, operation_id: &OperationId) -> (r: Vec<Event>)
        ensures
            copies_of(r@, self.events(), list_at(self.by_operation(), operation_id.value)),
    {
        match self.operation_to_events.get(&operation_id.value) {
            Some(ids) => self.collect(ids),
            None => {
                proof {
                    reveal(Seq::filter);
                }
                Vec::new()
            },
        }
    }

    /// Copies of the recorded events of an actor, in the order they were
    /// added.
    pub fn get_events_by_actor(&self, actor_id: &ActorId) -> (r: Vec<Event>)
        ensures
            copies_of(r@, self.events(), list_at(self.by_actor(), actor_id.value)),
    {
        match self.actor_to_events.get(&actor_id.value) {
            Some(ids) => self.collect(ids),
            None => {
                proof {
                    reveal(Seq::filter);
                }
                Vec::new()
            },
        }
    }

    /// Forgets all events and relations.
    pub fn clear(&mut self)
        ensures
            final(self).wf(),
            final(self).events().is_empty(),
            final(self).children().is_empty(),
            final(self).parents().is_empty(),
            final(self).by_project().is_empty(),
            final(self).by_operation().is_empty(),
            final(self).by_actor().is_empty(),
    {
        self.events.clear();
        self.parent_to_children.clear();
        self.child_to_parent.clear();
        self.project_to_events.clear();
        self.operation_to_events.clear();
        self.actor_to_events.clear();
        assert(self.children() =~= Map::empty());
        assert(self.by_project() =~= Map::empty());
        assert(self.by_operation() =~= Map::empty());
        assert(self.by_actor() =~= Map::empty());
    }

    /// The chain of an event: its recorded ancestors, from the topmost down
    /// to the event itself, then its recorded descendants, each once; see
    /// `is_chain`. The recorded parents above the event must not form a
    /// cycle.
    pub fn get_chain(&self, event_id: &EventId) -> (r: Vec<Event>)
        requires
            self.wf(),
            chain_is_finite(*self, event_id.value),
        ensures
            is_chain(r@, *self, event_id.value),
    {
        let k0 = event_id.value;
        let ghost ev = self.events@;
        let ghost par = self.child_to_parent@;
        let ghost n0 = choose|n: nat| walk_ends(ev, par, k0, n);
        let ghost full = ancestor_walk(ev, par, k0, n0);
        // Walk up through the parents.
        let mut upward: Vec<Event> = Vec::new();
        let mut current: u128 = k0;
        let mut more = true;
        let ghost mut f: nat = n0;
        let ghost mut walked: Seq<u128> = Seq::empty();
        while more
            invariant
                self.wf(),
                ev == self.events@,
                par == self.child_to_parent@,
                full == ancestor_walk(ev, par, k0, n0),
                upward@.len() == walked.len(),
                forall|i: int| 0 <= i < walked.len() ==> (#[trigger] upward@[i]).same_as(ev[walked[i]]),
                more ==> walk_ends(ev, par, current, f) && walked + ancestor_walk(ev, par, current, f)
                    == full,
                !more ==> walked == full,
            decreases f + if more { 1nat } else { 0nat },
        {
            match self.events.get(&current) {
                Some(e) => {
                    proof {
                        lemma_walk_step(ev, par, current, f);
                    }
                    upward.push(e.duplicate());
                    proof {
                        walked = walked.push(current);
                    }
                    match self.child_to_parent.get(&current) {
                        Some(p) => {
                            proof {
                                assert(walked + ancestor_walk(ev, par, p.value, (f - 1) as nat)
                                    =~= full);
                                f = (f - 1) as nat;
                            }
                            current = p.value;
                        },
                        None => {
                            proof {
                                assert(walked =~= full);
                            }
                            more = false;
                        },
                    }
                },
                None => {
                    proof {
                        assert(walked =~= full);
                    }
                    more = false;
                },
            }
        }
        proof {
            let m = choose|n: nat| walk_ends(self.events(), self.parents(), k0, n);
            lemma_walk_any(ev, par, k0, n0, m);
            assert(full == ancestors(*self, k0));
        }
        // Reverse into the chain.
        let ghost up = upward@;
        let mut chain: Vec<Event> = Vec::new();
        while upward.len() > 0
            invariant
                upward@ == up.take(upward@.len() as int),
                upward@.len() <= up.len(),
                chain@.len() == up.len() - upward@.len(),
                forall|i: int| 0 <= i < chain@.len() ==> chain@[i] == up[up.len() - 1 - i],
            decreases upward@.len(),
        {
            let e = upward.pop().unwrap();
            chain.push(e);
        }
        let ghost anc = full.reverse();
        proof {
            assert forall|i: int| 0 <= i < anc.len() implies (#[trigger] chain@[i]).same_as(ev[anc[i]]) by {
                assert(chain@[i] == up[up.len() - 1 - i]);
            }
        }
        // The event itself, where the walk did not list it.
        let mut listed = false;
        let mut i: usize = 0;
        while i < chain.len()
            invariant
                i <= chain@.len(),
                listed ==> exists|j: int| 0 <= j < chain@.len() && chain@[j].id == *event_id,
                !listed ==> forall|j: int| 0 <= j < i ==> chain@[j].id != *event_id,
            decreases chain@.len() - i,
        {
            if chain[i].id == *event_id {
                listed = true;
            }
            i = i + 1;
        }
        if !listed {
            proof {
                if ev.contains_key(k0) {
                    lemma_walk_step(ev, par, k0, n0);
                    assert(full[0] == k0);
                    assert(anc[anc.len() - 1] == k0);
                    assert(chain@[anc.len() - 1].id == ev[k0].id);
                }
            }
            match self.get_event(event_id) {
                Some(e) => {
                    chain.push(e);
                },
                None => {},
            }
        }
        assert(chain@.len() == anc.len());
        // Breadth-first walk down through the children.
        let ghost ch = self.children();
        let ghost universe = listed_ids(ch, ch.dom()).insert(k0);
        proof {
            assert(ch.dom() =~= self.parent_to_children@.dom());
            lemma_listed_ids_finite(ch, ch.dom());
            assert(ch.dom().finite());
        }
        let ghost base = chain@;
        let mut visited: HashSet<u128> = HashSet::new();
        visited.insert(k0);
        let mut queue: VecDeque<u128> = VecDeque::new();
        queue.push_back(k0);
        let ghost mut out: Seq<u128> = Seq::empty();
        let ghost mut steps: nat = 0;
        proof {
            assert(is_path(ch, seq![k0]));
            assert(chain@.skip(base.len() as int) =~= Seq::<Event>::empty());
            assert(visited@ =~= set![k0]);
            assert(queue@ =~= seq![k0]);
            assert forall|v: u128, j: int|
                visited@.contains(v) && !queue@.contains(v) && 0 <= j < list_at(ch, v).len() implies visited@.contains(
                #[trigger] list_at(ch, v)[j].value,
            ) by {
                assert(v == k0);
                assert(queue@[0] == k0);
            }
        }
        while queue.len() > 0
            invariant
                self.wf(),
                ev == self.events@,
                ch == self.children(),
                (visited@, queue@, out) == bfs_after(ch, ev, k0, steps),
                chain@.len() == base.len() + out.len(),
                forall|i: int| 0 <= i < out.len() ==> (#[trigger] chain@[base.len() + i]).id.value == out[i],
                universe == listed_ids(ch, ch.dom()).insert(k0),
                universe.finite(),
                visited@.subset_of(universe),
                visited@.contains(k0),
                forall|v: u128| #[trigger] visited@.contains(v) ==> descendant(ch, k0, v),
                queue@.no_duplicates(),
                forall|i: int| 0 <= i < queue@.len() ==> visited@.contains(#[trigger] queue@[i]),
                forall|v: u128, j: int|
                    visited@.contains(v) && !queue@.contains(v) && 0 <= j < list_at(ch, v).len()
                        ==> visited@.contains(#[trigger] list_at(ch, v)[j].value),
                chain@.len() >= base.len(),
                chain@.take(base.len() as int) == base,
                forall|i: int|
                    base.len() <= i < chain@.len() ==> {
                        &&& (#[trigger] chain@[i]).id.value != k0
                        &&& ev.contains_key(chain@[i].id.value)
                        &&& visited@.contains(chain@[i].id.value)
                        &&& chain@[i].same_as(ev[chain@[i].id.value])
                    },
                forall|i: int, j: int|
                    base.len() <= i < j < chain@.len() ==> (#[trigger] chain@[i]).id != (#[trigger] chain@[j]).id,
                forall|b: u128|
                    b != k0 && #[trigger] visited@.contains(b) && ev.contains_key(b) ==> exists|i: int|
                        base.len() <= i < chain@.len() && chain@[i].id.value == b,
            decreases 2 * (universe.len() - visited@.len()) + queue@.len(),
        {
            let ghost vlen = visited@.len();
            let ghost old_q = queue@;
            proof {
                vstd::set_lib::lemma_len_subset(visited@, universe);
            }
            let id = queue.pop_front().unwrap();
            let ghost q_after_pop = queue@;
            let ghost v_start = visited@;
            let ghost o_start = out;
            proof {
                assert(old_q[0] == id);
                assert(q_after_pop =~= old_q.drop_first());
            }
            proof {
                assert forall|v: u128, jj: int|
                    visited@.contains(v) && !queue@.contains(v) && v != id && 0 <= jj < list_at(ch, v).len()
                        implies visited@.contains(#[trigger] list_at(ch, v)[jj].value) by {
                    assert(!old_q.contains(v)) by {
                        if old_q.contains(v) {
                            let x = choose|x: int| 0 <= x < old_q.len() && old_q[x] == v;
                            assert(x != 0);
                            assert(queue@[x - 1] == v);
                        }
                    }
                }
                assert(!queue@.contains(id)) by {
                    if queue@.contains(id) {
                        let c = choose|c: int| 0 <= c < queue@.len() && queue@[c] == id;
                        assert(q_after_pop[c] == id);
                    }
                }
            }
            match self.parent_to_children.get(&id) {
                Some(kids) => {
                    let mut j: usize = 0;
                    proof {
                        assert(kids@.take(0) =~= Seq::<EventId>::empty());
                    }
                    while j < kids.len()
                        invariant
                            self.wf(),
                            ev == self.events@,
                            ch == self.children(),
                            kids@ == list_at(ch, id),
                            j <= kids@.len(),
                            (visited@, queue@, out) == bfs_visit_all(ev, (v_start, q_after_pop, o_start), kids@.take(j as int)),
                            chain@.len() == base.len() + out.len(),
                            forall|i: int| 0 <= i < out.len() ==> (#[trigger] chain@[base.len() + i]).id.value == out[i],
                            universe == listed_ids(ch, ch.dom()).insert(k0),
                            universe.finite(),
                            visited@.subset_of(universe),
                            visited@.len() >= vlen,
                            2 * (universe.len() - visited@.len()) + queue@.len() <= 2 * (universe.len() - vlen) + q_after_pop.len(),
                            visited@.contains(k0),
                            visited@.contains(id),
                            !queue@.contains(id),
                            forall|v: u128| #[trigger] visited@.contains(v) ==> descendant(ch, k0, v),
                            queue@.no_duplicates(),
                            forall|i: int| 0 <= i < queue@.len() ==> visited@.contains(#[trigger] queue@[i]),
                            forall|v: u128, jj: int|
                                visited@.contains(v) && !queue@.contains(v) && v != id && 0 <= jj < list_at(ch, v).len()
                                    ==> visited@.contains(#[trigger] list_at(ch, v)[jj].value),
                            forall|jj: int| 0 <= jj < j ==> visited@.contains(#[trigger] list_at(ch, id)[jj].value),
                            chain@.len() >= base.len(),
                            chain@.take(base.len() as int) == base,
                            forall|i: int|
                                base.len() <= i < chain@.len() ==> {
                                    &&& (#[trigger] chain@[i]).id.value != k0
                                    &&& ev.contains_key(chain@[i].id.value)
                                    &&& visited@.contains(chain@[i].id.value)
                                    &&& chain@[i].same_as(ev[chain@[i].id.value])
                                },
                            forall|i: int, jj: int|
                                base.len() <= i < jj < chain@.len() ==> (#[trigger] chain@[i]).id != (#[trigger] chain@[jj]).id,
                            forall|b: u128|
                                b != k0 && #[trigger] visited@.contains(b) && ev.contains_key(b) ==> exists|i: int|
                                    base.len() <= i < chain@.len() && chain@[i].id.value == b,
                        decreases kids@.len() - j,
                    {
                        let c = kids[j].value;
                        let ghost w_prev = (visited@, queue@, out);
                        proof {
                            assert(kids@.take(j + 1).drop_last() =~= kids@.take(j as int));
                            assert(kids@.take(j + 1).last() == kids@[j as int]);
                        }
                        if !visited.contains(&c) {
                            proof {
                                assert(ch.contains_key(id)) by {
                                    assert(self.parent_to_children@.contains_key(id));
                                }
                                assert(list_at(ch, id)[j as int].value == c);
                                assert(listed_ids(ch, ch.dom()).contains(c));
                                assert(visited@.insert(c).subset_of(universe));
                                vstd::set_lib::lemma_len_subset(visited@.insert(c), universe);
                                assert(list_at(ch, id).contains(EventId { value: c })) by {
                                    assert(list_at(ch, id)[j as int] == EventId { value: c });
                                }
                                lemma_path_extend(ch, k0, id, c);
                                assert(c != k0);
                            }
                            let ghost prev_chain = chain@;
                            visited.insert(c);
                            match self.events.get(&c) {
                                Some(e) => {
                                    chain.push(e.duplicate());
                                    proof {
                                        out = out.push(c);
                                        assert(chain@[chain@.len() - 1].id.value == c);
                                        assert forall|i: int| 0 <= i < out.len() implies (#[trigger] chain@[base.len() + i]).id.value == out[i] by {
                                            if i < out.len() - 1 {
                                                assert(chain@[base.len() + i] == prev_chain[base.len() + i]);
                                            }
                                        }
                                        assert forall|b: u128|
                                            b != k0 && #[trigger] visited@.contains(b) && ev.contains_key(b) implies exists|i: int|
                                                base.len() <= i < chain@.len() && chain@[i].id.value == b by {
                                            if b == c {
                                                assert(chain@[chain@.len() - 1].id.value == b);
                                            } else {
                                                let i = choose|i: int| base.len() <= i < prev_chain.len() && prev_chain[i].id.value == b;
                                                assert(chain@[i] == prev_chain[i]);
                                            }
                                        }
                                        assert(chain@.take(base.len() as int) =~= prev_chain.take(base.len() as int));
                                    }
                                },
                                None => {},
                            }
                            let ghost prev_q = queue@;
                            queue.push_back(c);
                            proof {
                                assert(!prev_q.contains(c)) by {
                                    if prev_q.contains(c) {
                                        let x = choose|x: int| 0 <= x < prev_q.len() && prev_q[x] == c;
                                        assert(visited@.contains(prev_q[x]));
                                    }
                                }
                                assert forall|v: u128, jj: int|
                                    visited@.contains(v) && !queue@.contains(v) && v != id && 0 <= jj < list_at(ch, v).len()
                                        implies visited@.contains(#[trigger] list_at(ch, v)[jj].value) by {
                                    if v != c {
                                        assert(!prev_q.contains(v)) by {
                                            if prev_q.contains(v) {
                                                let x = choose|x: int| 0 <= x < prev_q.len() && prev_q[x] == v;
                                                assert(queue@[x] == v);
                                            }
                                        }
                                    } else {
                                        assert(queue@[queue@.len() - 1] == c);
                                    }
                                }
                                assert(!queue@.contains(id)) by {
                                    if queue@.contains(id) {
                                        let x = choose|x: int| 0 <= x < queue@.len() && queue@[x] == id;
                                        if x < prev_q.len() {
                                            assert(prev_q[x] == id);
                                        }
                                    }
                                }
                            }
                        }
                        proof {
                            assert(visited@ =~= bfs_visit(ev, w_prev, c).0);
                            assert(queue@ =~= bfs_visit(ev, w_prev, c).1);
                            assert(out =~= bfs_visit(ev, w_prev, c).2);
                        }
                        j = j + 1;
                    }
                    proof {
                        assert(kids@.take(kids@.len() as int) =~= kids@);
                    }
                },
                None => {
                    proof {
                        assert(list_at(ch, id) =~= Seq::<EventId>::empty());
                    }
                },
            }
            proof {
                vstd::set_lib::lemma_len_subset(visited@, universe);
                steps = steps + 1;
            }
        }
        proof {
            let n = choose|n: nat| bfs_after(ch, ev, k0, n).1.len() == 0;
            assert(bfs_after(ch, ev, k0, steps).1.len() == 0);
            if n <= steps {
                lemma_bfs_stable(ch, ev, k0, n, steps);
            } else {
                lemma_bfs_stable(ch, ev, k0, steps, n);
            }
            assert(descendant_order(*self, k0) == out);
            assert forall|i: int| 0 <= i < chain@.skip(anc.len() as int).len() implies (#[trigger] chain@.skip(
                anc.len() as int,
            )[i]).id.value == descendant_order(*self, k0)[i] by {
                assert(chain@.skip(anc.len() as int)[i] == chain@[base.len() + i]);
            }
            assert forall|v: u128, j: int|
                visited@.contains(v) && 0 <= j < list_at(ch, v).len() implies visited@.contains(
                #[trigger] list_at(ch, v)[j].value,
            ) by {
                assert(!queue@.contains(v));
            }
            let d = chain@.skip(anc.len() as int);
            assert forall|b: u128|
                b != k0 && #[trigger] ev.contains_key(b) && descendant(ch, k0, b) implies exists|i: int|
                0 <= i < d.len() && d[i].id.value == b by {
                let p = choose|p: Seq<u128>| #[trigger] is_path(ch, p) && p[0] == k0 && p.last() == b;
                lemma_closed_contains_path(ch, visited@, p);
                let i = choose|i: int| base.len() <= i < chain@.len() && chain@[i].id.value == b;
                assert(d[i - anc.len()] == chain@[i]);
            }
            assert forall|i: int| 0 <= i < anc.len() implies (#[trigger] chain@[i]).same_as(ev[anc[i]]) by {
                assert(chain@.take(base.len() as int)[i] == base[i]);
            }
            assert forall|i: int| 0 <= i < d.len() implies {
                &&& (#[trigger] d[i]).id.value != k0
                &&& ev.contains_key(d[i].id.value)
                &&& descendant(ch, k0, d[i].id.value)
                &&& d[i].same_as(ev[d[i].id.value])
            } by {
                assert(d[i] == chain@[i + anc.len()]);
            }
            assert forall|i: int, j: int| 0 <= i < j < d.len() implies (#[trigger] d[i]).id != (#[trigger] d[j]).id by {
                assert(d[i] == chain@[i + anc.len()]);
                assert(d[j] == chain@[j + anc.len()]);
            }
        }
        chain
    }

    /// Whether `event2` is in the chain of `event1`: an ancestor of it, the
    /// event itself, or a descendant of it. The recorded parents above
    /// `event1` must not form a cycle.
    pub fn are_related(&self, event1: &EventId, event2: &EventId) -> (r: bool)
        requires
            self.wf(),
            chain_is_finite(*self, event1.value),
        ensures
            r == related(*self, event1.value, event2.value),
    {
        let chain = self.get_chain(event1);
        let mut i: usize = 0;
        while i < chain.len()
            invariant
                i <= chain@.len(),
                self.wf(),
                is_chain(chain@, *self, event1.value),
                forall|j: int| 0 <= j < i ==> chain@[j].id != *event2,
            decreases chain@.len() - i,
        {
            if chain[i].id == *event2 {
                proof {
                    lemma_chain_lists(chain@, *self, event1.value, event2.value);
                }
                return true;
            }
            i = i + 1;
        }
        proof {
            lemma_chain_lists(chain@, *self, event1.value, event2.value);
        }
        false
    }

    /// A copy of the event reached from `event_id` by following the recorded
    /// parents to one that has none, if that event is known. The recorded
    /// parents above `event_id` must not form a cycle.
    pub fn get_root(&self, event_id: &EventId) -> (r: Option<Event>)
        requires
            root_is_reached(*self, event_id.value),
        ensures
            r is Some <==> self.events().contains_key(root_of(*self, event_id.value)),
            r is Some ==> r->0.same_as(self.events()[root_of(*self, event_id.value)]),
    {
        let ghost par = self.child_to_parent@;
        let ghost n0 = choose|n: nat| parent_walk_ends(par, event_id.value, n);
        let mut current: u128 = event_id.value;
        let ghost mut f: nat = n0;
        let mut more = true;
        while more
            invariant
                par == self.child_to_parent@,
                parent_walk_ends(par, current, f),
                parent_walk_end(par, current, f) == parent_walk_end(par, event_id.value, n0),
                !more ==> !par.contains_key(current),
            decreases f + if more { 1nat } else { 0nat },
        {
            match self.child_to_parent.get(&current) {
                Some(p) => {
                    proof {
                        f = (f - 1) as nat;
                    }
                    current = p.value;
                },
                None => {
                    more = false;
                },
            }
        }
        proof {
            let m = choose|n: nat| parent_walk_ends(self.parents(), event_id.value, n);
            lemma_parent_walk_any(par, event_id.value, n0, m);
        }
        self.get_event(&EventId { value: current })
    }

    /// Whether `e` is picked by `pick`; see `picks`.
    fn picks_event(&self, pick: &Pick, e: &Event) -> (r: bool)
        ensures
            r == picks(*self, *pick, *e),
    {
        match pick {
            Pick::Roots => e.parent_id.is_none(),
            Pick::Leaves => match self.parent_to_children.get(&e.id.value) {
                Some(kids) => kids.len() == 0,
                None => true,
            },
            Pick::Near(target, window) => {
                let t: i128 = e.timestamp as i128;
                let g: i128 = *target as i128;
                let diff: i128 = if t > g {
                    t - g
                } else {
                    g - t
                };
                diff <= *window as i128
            },
            Pick::Types(types) => {
                let mut found = false;
                let mut i: usize = 0;
                while i < types.len()
                    invariant
                        i <= types@.len(),
                        found == exists|j: int| 0 <= j < i && same_type(#[trigger] types@[j], e.event_type),
                    decreases types@.len() - i,
                {
                    if types[i].same_as(&e.event_type) {
                        found = true;
                    }
                    i = i + 1;
                }
                found
            },
            Pick::Meta(key, value) => match e.metadata.get(key) {
                Some(v) => {
                    let wanted = String::from_str(value);
                    *v == wanted
                },
                None => false,
            },
        }
    }

    /// Copies of the recorded events that `pick` picks, each once.
    fn select_events(&self, pick: &Pick, Ghost(p): Ghost<spec_fn(Event) -> bool>) -> (r: Vec<Event>)
        requires
            self.wf(),
            forall|e: Event| #[trigger] p(e) == picks(*self, *pick, e),
        ensures
            lists_matching(r@, self.events(), p),
    {
        let keys = key_list(&self.events);
        let mut r: Vec<Event> = Vec::new();
        let mut i: usize = 0;
        while i < keys.len()
            invariant
                self.wf(),
                forall|e: Event| #[trigger] p(e) == picks(*self, *pick, e),
                keys@.to_set() == self.events@.dom(),
                keys@.no_duplicates(),
                i <= keys@.len(),
                forall|a: int|
                    0 <= a < r@.len() ==> self.events@.contains_key(#[trigger] r@[a].id.value)
                        && r@[a].same_as(self.events@[r@[a].id.value]) && p(self.events@[r@[a].id.value])
                        && keys@.subrange(0, i as int).contains(r@[a].id.value),
                forall|a: int, b: int| 0 <= a < b < r@.len() ==> #[trigger] r@[a].id != #[trigger] r@[b].id,
                forall|a: int|
                    0 <= a < i && p(self.events@[keys@[a]]) ==> exists|b: int|
                        0 <= b < r@.len() && r@[b].id.value == #[trigger] keys@[a],
            decreases keys@.len() - i,
        {
            let k = keys[i];
            assert(keys@.to_set().contains(k));
            let e = self.events.get(&k).unwrap();
            if self.picks_event(pick, e) {
                let ghost before = r@;
                proof {
                    assert forall|a: int| 0 <= a < before.len() implies before[a].id.value != k by {
                        let c = choose|c: int| 0 <= c < i && keys@[c] == before[a].id.value;
                        assert(keys@.subrange(0, i as int)[c] == keys@[c]);
                    }
                }
                r.push(e.duplicate());
                proof {
                    assert(r@[r@.len() - 1].id.value == k);
                    assert forall|a: int| 0 <= a < i + 1 && p(self.events@[keys@[a]]) implies exists|b: int|
                        0 <= b < r@.len() && r@[b].id.value == #[trigger] keys@[a] by {
                        if a == i {
                            assert(r@[r@.len() - 1].id.value == keys@[a]);
                        } else {
                            let b = choose|b: int| 0 <= b < before.len() && before[b].id.value == keys@[a];
                            assert(r@[b] == before[b]);
                        }
                    }
                }
            }
            proof {
                assert forall|a: int| 0 <= a < r@.len() implies keys@.subrange(0, i + 1).contains(
                    #[trigger] r@[a].id.value,
                ) by {
                    if r@[a].id.value == k {
                        assert(keys@.subrange(0, i + 1)[i as int] == k);
                    } else {
                        let c = choose|c: int| 0 <= c < i && keys@.subrange(0, i as int)[c] == r@[a].id.value;
                        assert(keys@.subrange(0, i + 1)[c] == r@[a].id.value);
                    }
                }
            }
            i = i + 1;
        }
        proof {
            assert forall|k: u128| #[trigger] self.events@.contains_key(k) && p(self.events@[k]) implies exists|b: int|
                0 <= b < r@.len() && r@[b].id.value == k by {
                assert(keys@.to_set().contains(k));
                let a = choose|a: int| 0 <= a < keys@.len() && keys@[a] == k;
                assert(p(self.events@[keys@[a]]));
            }
        }
        r
    }

    /// Copies of the recorded events without a parent, each once.
    pub fn get_root_events(&self) -> (r: Vec<Event>)
        requires
            self.wf(),
        ensures
            lists_matching(r@, self.events(), |e: Event| is_root_event(e)),
    {
        self.select_events(&Pick::Roots, Ghost(|e: Event| is_root_event(e)))
    }

    /// Copies of the recorded events under which no child is recorded, each
    /// once.
    pub fn get_leaf_events(&self) -> (r: Vec<Event>)
        requires
            self.wf(),
        ensures
            lists_matching(r@, self.events(), |e: Event| is_leaf_event(*self, e)),
    {
        self.select_events(&Pick::Leaves, Ghost(|e: Event| is_leaf_event(*self, e)))
    }

    /// Copies of the recorded events whose time lies within `window`
    /// milliseconds of the time of `event`, each once.
    pub fn correlate_by_time(&self, event: &Event, window: u64) -> (r: Vec<Event>)
        requires
            self.wf(),
        ensures
            lists_matching(r@, self.events(), |e: Event| within(e, event.timestamp, window)),
    {
        self.select_events(&Pick::Near(event.timestamp, window), Ghost(|e: Event| within(e, event.timestamp, window)))
    }

    /// Copies of the recorded events whose type is one of `types`, each once.
    pub fn correlate_by_type(&self, event: &Event, types: &[EventType]) -> (r: Vec<Event>)
        requires
            self.wf(),
        ensures
            lists_matching(r@, self.events(), |e: Event| of_types(e, types@)),
    {
        self.select_events(&Pick::Types(types), Ghost(|e: Event| of_types(e, types@)))
    }

    /// Copies of the recorded events whose metadata holds `value` under
    /// `key`, each once.
    pub fn correlate_by_metadata(&self, event: &Event, key: &str, value: &str) -> (r: Vec<Event>)
        requires
            self.wf(),
        ensures
            lists_matching(r@, self.events(), |e: Event| has_metadata(e, key@, value@)),
    {
        self.select_events(&Pick::Meta(key, value), Ghost(|e: Event| has_metadata(e, key@, value@)))
    }

    /// Counts that describe the correlator. The number of recorded
    /// parent-child links must fit in a `usize`.
    pub fn stats(&self) -> (r: CorrelatorStats)
        requires
            self.wf(),
            total_links(self.children()) <= usize::MAX,
        ensures
            r.total_events == self.events().len(),
            r.total_projects == self.by_project().len(),
            r.total_operations == self.by_operation().len(),
            r.total_actors == self.by_actor().len(),
            r.total_parent_child_relationships == total_links(self.children()),
            r.root_events == matching_count(self.events(), |e: Event| is_root_event(e)),
            r.leaf_events == matching_count(self.events(), |e: Event| is_leaf_event(*self, e)),
    {
        let keys = key_list(&self.parent_to_children);
        let ghost ch = self.children();
        let ghost f = |acc: int, k: u128| acc + list_at(ch, k).len();
        let mut total: u128 = 0;
        let mut i: usize = 0;
        proof {
            assert(keys@.take(0).to_set() =~= Set::<u128>::empty());
            vstd::set::fold::lemma_fold_empty(0int, f);
            assert(ch.dom() =~= self.parent_to_children@.dom());
        }
        while i < keys.len()
            invariant
                ch == self.children(),
                f == (|acc: int, k: u128| acc + list_at(ch, k).len()),
                keys@.to_set() == self.parent_to_children@.dom(),
                keys@.no_duplicates(),
                i <= keys@.len(),
                total == keys@.take(i as int).to_set().fold(0int, f),
                total <= i * (usize::MAX as int),
            decreases keys@.len() - i,
        {
            let k = keys[i];
            assert(keys@.to_set().contains(k));
            let n = self.parent_to_children.get(&k).unwrap().len();
            proof {
                let before = keys@.take(i as int);
                assert(keys@.take(i + 1) =~= before.push(k));
                before.lemma_push_to_set_commute(k);
                assert(!before.to_set().contains(k)) by {
                    if before.to_set().contains(k) {
                        let c = choose|c: int| 0 <= c < before.len() && before[c] == k;
                        assert(keys@[c] == keys@[i as int]);
                    }
                }
                vstd::seq_lib::seq_to_set_is_finite(before);
                assert(vstd::set::fold::is_fun_commutative(f));
                vstd::set::fold::lemma_fold_insert(before.to_set(), 0int, f, k);
                assert(list_at(ch, k).len() == n);
                assert(total + n <= (i + 1) * (usize::MAX as int)) by (nonlinear_arith)
                    requires
                        total <= i * (usize::MAX as int),
                        n <= usize::MAX,
                ;
                assert((i + 1) * (usize::MAX as int) <= u128::MAX) by (nonlinear_arith)
                    requires
                        i < usize::MAX,
                        usize::MAX <= u64::MAX,
                ;
            }
            total = total + n as u128;
            i = i + 1;
        }
        proof {
            assert(keys@.take(keys@.len() as int) =~= keys@);
            assert(keys@.to_set() =~= ch.dom());
            assert(self.by_project().dom() =~= self.project_to_events@.dom());
            assert(self.by_operation().dom() =~= self.operation_to_events@.dom());
            assert(self.by_actor().dom() =~= self.actor_to_events@.dom());
        }
        let roots = self.get_root_events();
        let leaves = self.get_leaf_events();
        proof {
            lemma_matching_len(roots@, self.events(), |e: Event| is_root_event(e));
            lemma_matching_len(leaves@, self.events(), |e: Event| is_leaf_event(*self, e));
        }
        CorrelatorStats {
            total_events: self.events.len(),
            total_projects: self.project_to_events.len(),
            total_operations: self.operation_to_events.len(),
            total_actors: self.actor_to_events.len(),
            total_parent_child_relationships: total as usize,
            root_events: roots.len(),
            leaf_events: leaves.len(),
        }
    }
}

} // verus!
