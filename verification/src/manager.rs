//! The job manager: the jobs it knows, the queue of jobs waiting to start,
//! the queue of jobs that run, and the contexts of started jobs.

use vstd::prelude::*;
use std::collections::HashMap;
use std::collections::VecDeque;
use vstd::std_specs::iter::IteratorSpec;
use crate::clock::unix_millis_now;
use crate::context::{default_working_dir, ContextBuilder, JobContext};
use crate::error::JobError;
use crate::ids::{uuid_text, ActorId, JobId, OperationId, ProjectId};
use crate::job::{job_state_name, refusal_text, Job, JobBuilder, JobPayload, JobResult};
use crate::types::JobState;

verus! {

broadcast use vstd::std_specs::hash::group_hash_axioms;

/// The keys of a map, each once, in the order in which the map hands them
/// out.
pub fn key_list<V>(m: &HashMap<u128, V>) -> (r: Vec<u128>)
    ensures
        r@.to_set() == m@.dom(),
        r@.no_duplicates(),
        r@.len() == m@.dom().len(),
{
    let mut r: Vec<u128> = Vec::new();
    let ghost all = m.keys().remaining().unref();
    for k in it: m.keys()
        invariant
            all == it.seq().unref(),
            r@ == all.take(it.index() as int),
    {
        r.push(*k);
        assert(all.take(it.index() + 1) =~= all.take(it.index() as int).push(*k));
    }
    assert(r@ =~= all);
    r
}

/// The position of the first occurrence of `id` in `q`.
pub open spec fn first_index(q: Seq<JobId>, id: JobId) -> int {
    choose|i: int| 0 <= i < q.len() && q[i] == id && forall|j: int| 0 <= j < i ==> q[j] != id
}

/// `q` without the first occurrence of `id`; `q` itself where `id` does not
/// occur.
pub open spec fn without(q: Seq<JobId>, id: JobId) -> Seq<JobId> {
    if q.contains(id) {
        q.remove(first_index(q, id))
    } else {
        q
    }
}

proof fn lemma_first_index(q: Seq<JobId>, id: JobId, i: int)
    requires
        0 <= i < q.len(),
        q[i] == id,
        forall|j: int| 0 <= j < i ==> q[j] != id,
    ensures
        first_index(q, id) == i,
{
    let c = first_index(q, id);
    assert(0 <= c < q.len() && q[c] == id && forall|j: int| 0 <= j < c ==> q[j] != id);
}

/// Removes the first occurrence of `id` from a queue.
fn remove_first(q: &mut VecDeque<JobId>, id: JobId)
    ensures
        final(q)@ == without(old(q)@, id),
{
    let mut i: usize = 0;
    while i < q.len()
        invariant
            i <= q@.len(),
            q@ == old(q)@,
            forall|j: int| 0 <= j < i ==> q@[j] != id,
        decreases q@.len() - i,
    {
        if q[i] == id {
            proof {
                lemma_first_index(q@, id, i as int);
            }
            q.remove(i);
            return ;
        }
        i = i + 1;
    }
    assert(!q@.contains(id));
}

/// Without duplicates, removing an identifier leaves no occurrence of it and
/// keeps every other one.
proof fn lemma_without(q: Seq<JobId>, id: JobId)
    requires
        q.no_duplicates(),
    ensures
        without(q, id).no_duplicates(),
        !without(q, id).contains(id),
        forall|x: JobId| x != id ==> (without(q, id).contains(x) <==> q.contains(x)),
        without(q, id).len() == if q.contains(id) { q.len() - 1 } else { q.len() as int },
{
    if q.contains(id) {
        let i = first_index(q, id);
        let w = q.remove(i);
        assert(0 <= i < q.len() && q[i] == id);
        assert forall|a: int, b: int| 0 <= a < b < w.len() implies w[a] != w[b] by {
            let a2 = if a < i { a } else { a + 1 };
            let b2 = if b < i { b } else { b + 1 };
            assert(w[a] == q[a2] && w[b] == q[b2]);
        }
        assert forall|x: JobId| x != id implies (w.contains(x) <==> q.contains(x)) by {
            if q.contains(x) {
                let j = choose|j: int| 0 <= j < q.len() && q[j] == x;
                if j < i {
                    assert(w[j] == x);
                } else {
                    assert(j != i);
                    assert(w[j - 1] == x);
                }
            }
            if w.contains(x) {
                let j = choose|j: int| 0 <= j < w.len() && w[j] == x;
                if j < i {
                    assert(q[j] == x);
                } else {
                    assert(q[j + 1] == x);
                }
            }
        }
        if w.contains(id) {
            let j = choose|j: int| 0 <= j < w.len() && w[j] == id;
            if j < i {
                assert(q[j] == id);
            } else {
                assert(q[j + 1] == id);
            }
        }
    }
}

/// A context just made for a started job: the job's identifiers, no command
/// or intent, the default working directory, and nothing else.
pub open spec fn is_initial_context(c: JobContext, j: Job) -> bool {
    &&& c.job_id == j.id
    &&& c.project_id == j.project_id
    &&& c.operation_id == j.operation_id
    &&& c.actor_id == j.actor_id
    &&& c.command is None
    &&& c.intent is None
    &&& c.working_dir@ == default_working_dir()
    &&& c.env_vars.view().is_empty()
    &&& c.resources.view().is_empty()
    &&& c.temp_files@.len() == 0
    &&& c.evidence_ids@.len() == 0
    &&& c.flags.view().is_empty()
    &&& c.timeout_at is None
}

/// The message of the error for an unknown job: the identifier's text.
pub open spec fn not_found(e: JobError, id: JobId) -> bool {
    e is NotFound && e->NotFound_0@ == uuid_text(id.value)
}

/// The message of the error when the running queue is full.
pub open spec fn queue_full_text() -> Seq<char> {
    "Maximum concurrent jobs reached"@
}


/// The job `j` started at time `now`.
pub open spec fn started_job(j: Job, now: i64) -> Job {
    Job { state: JobState::Running, started_at: Some(now), updated_at: now, ..j }
}

/// `m` after starting, at time `now`, the jobs of `ids`, in order.
pub open spec fn start_all(m: Map<u128, Job>, ids: Seq<JobId>, now: i64) -> Map<u128, Job>
    decreases ids.len(),
{
    if ids.len() == 0 {
        m
    } else {
        let last = ids[ids.len() - 1];
        start_all(m, ids.drop_last(), now).insert(last.value, started_job(m[last.value], now))
    }
}

/// The contexts `post` are `pre` with fresh contexts added for the jobs of
/// `ids`.
pub open spec fn contexts_added(
    pre: Map<u128, JobContext>,
    post: Map<u128, JobContext>,
    ids: Seq<JobId>,
    jobs: Map<u128, Job>,
) -> bool {
    &&& forall|k: u128| #[trigger]
        post.contains_key(k) <==> (pre.contains_key(k) || ids.contains(JobId { value: k }))
    &&& forall|i: int|
        0 <= i < ids.len() ==> is_initial_context(#[trigger] post[ids[i].value], jobs[ids[i].value])
    &&& forall|k: u128|
        #[trigger] pre.contains_key(k) && !ids.contains(JobId { value: k }) ==> post[k] == pre[k]
}

/// `start_job` accepts `id` in `pre`: the job is known and pending, and the
/// running queue has room.
pub open spec fn start_allowed(pre: JobManager, id: JobId) -> bool {
    &&& pre.jobs().contains_key(id.value)
    &&& pre.running().len() < pre.max_concurrent()
    &&& pre.jobs()[id.value].state == JobState::Pending
}

/// The manager's settings are the same in `pre` and `post`.
pub open spec fn same_settings(pre: JobManager, post: JobManager) -> bool {
    &&& post.max_concurrent() == pre.max_concurrent()
    &&& post.checkpoint_interval() == pre.checkpoint_interval()
    &&& post.last_checkpoint() == pre.last_checkpoint()
}

/// `post` is `pre` after starting job `id` at time `now`: the job runs, it
/// has left the pending queue, stands at the back of the running queue, and
/// has a fresh context.
pub open spec fn start_effect(pre: JobManager, post: JobManager, id: JobId, now: i64) -> bool {
    &&& post.jobs() == pre.jobs().insert(id.value, started_job(pre.jobs()[id.value], now))
    &&& post.pending() == without(pre.pending(), id)
    &&& post.running() == pre.running().push(id)
    &&& contexts_added(pre.contexts(), post.contexts(), seq![id], pre.jobs())
    &&& same_settings(pre, post)
}

/// `post` is `pre` after ending job `id` with the job `ended`: it has left
/// the running queue (and, where `from_pending`, the pending queue) and
/// lost its context.
pub open spec fn end_effect(
    pre: JobManager,
    post: JobManager,
    id: JobId,
    ended: Job,
    from_pending: bool,
) -> bool {
    &&& post.jobs() == pre.jobs().insert(id.value, ended)
    &&& post.pending() == if from_pending { without(pre.pending(), id) } else { pre.pending() }
    &&& post.running() == without(pre.running(), id)
    &&& post.contexts() == pre.contexts().remove(id.value)
    &&& same_settings(pre, post)
}

/// `post` is `pre` with job `id` replaced by `changed`, and nothing else
/// changed.
pub open spec fn update_effect(pre: JobManager, post: JobManager, id: JobId, changed: Job) -> bool {
    &&& post.jobs() == pre.jobs().insert(id.value, changed)
    &&& post.pending() == pre.pending()
    &&& post.running() == pre.running()
    &&& post.contexts() == pre.contexts()
    &&& same_settings(pre, post)
}

/// What `process_next` does from `pre`, giving `post` and `r`: with room in
/// the running queue and a job waiting, it takes the front of the pending
/// queue and starts it; a job that is not pending is dropped from the queue
/// and reported as an error. Otherwise nothing happens.
pub open spec fn process_next_effect(
    pre: JobManager,
    post: JobManager,
    r: Result<Option<JobId>, JobError>,
    now: i64,
) -> bool {
    if pre.running().len() >= pre.max_concurrent() || pre.pending().len() == 0 {
        r == Ok::<Option<JobId>, JobError>(None) && JobManager::unchanged(pre, post)
    } else {
        let id = pre.pending()[0];
        if pre.jobs()[id.value].state == JobState::Pending {
            r == Ok::<Option<JobId>, JobError>(Some(id)) && start_effect(pre, post, id, now)
        } else {
            &&& r is Err
            &&& r->Err_0 is InvalidState
            &&& r->Err_0->InvalidState_0@ == refusal_text(
                "Cannot start job in state: "@,
                pre.jobs()[id.value].state,
            )
            &&& post.pending() == pre.pending().drop_first()
            &&& post.jobs() == pre.jobs()
            &&& post.running() == pre.running()
            &&& post.contexts() == pre.contexts()
            &&& same_settings(pre, post)
        }
    }
}


/// Which jobs a listing returns.
pub enum JobFilter {
    All,
    State(JobState),
    Project(ProjectId),
    Actor(ActorId),
}

/// Whether `filter` selects job `j`.
pub open spec fn selects(filter: JobFilter, j: Job) -> bool {
    match filter {
        JobFilter::All => true,
        JobFilter::State(s) => j.state == s,
        JobFilter::Project(p) => j.project_id == p,
        JobFilter::Actor(a) => j.actor_id == a,
    }
}

/// `r` lists copies of exactly the jobs of `m` that `filter` selects, each
/// once, in some order.
pub open spec fn lists_selected(r: Seq<Job>, m: Map<u128, Job>, filter: JobFilter) -> bool {
    &&& forall|i: int|
        0 <= i < r.len() ==> m.contains_key(#[trigger] r[i].id.value) && r[i].same_as(
            m[r[i].id.value],
        ) && selects(filter, m[r[i].id.value])
    &&& forall|i: int, j: int| 0 <= i < j < r.len() ==> #[trigger] r[i].id != #[trigger] r[j].id
    &&& forall|k: u128|
        #[trigger] m.contains_key(k) && selects(filter, m[k]) ==> exists|i: int|
            0 <= i < r.len() && r[i].id.value == k
}

/// The number of jobs of `m` in state `s`.
pub open spec fn state_count(m: Map<u128, Job>, s: JobState) -> nat {
    m.dom().filter(|k: u128| m[k].state == s).len()
}

/// The states, in the order in which statistics list them.
pub open spec fn state_order() -> Seq<JobState> {
    seq![
        JobState::Pending,
        JobState::Running,
        JobState::Paused,
        JobState::Completed,
        JobState::Failed,
        JobState::Cancelled,
    ]
}

/// The states of `states` that some job of `m` is in, each with the number
/// of such jobs.
pub open spec fn state_counts(m: Map<u128, Job>, states: Seq<JobState>) -> Seq<(JobState, usize)>
    decreases states.len(),
{
    if states.len() == 0 {
        Seq::empty()
    } else {
        let rest = state_counts(m, states.drop_first());
        let c = state_count(m, states[0]);
        if c > 0 {
            seq![(states[0], c as usize)] + rest
        } else {
            rest
        }
    }
}

proof fn lemma_filter_no_dups(p: Seq<JobId>, f: spec_fn(JobId) -> bool)
    requires
        p.no_duplicates(),
    ensures
        p.filter(f).no_duplicates(),
    decreases p.len(),
{
    reveal(Seq::filter);
    if p.len() > 0 {
        lemma_filter_no_dups(p.drop_last(), f);
        broadcast use vstd::seq_lib::group_filter_ensures;
        if f(p.last()) {
            assert(!p.drop_last().filter(f).contains(p.last())) by {
                if p.drop_last().filter(f).contains(p.last()) {
                    let c = choose|c: int| 0 <= c < p.drop_last().filter(f).len() && p.drop_last().filter(f)[c] == p.last();
                    assert(p.drop_last().filter(f).contains(p.drop_last().filter(f)[c]));
                    p.drop_last().lemma_filter_contains_rev(f, p.last());
                    let d = choose|d: int| 0 <= d < p.drop_last().len() && p.drop_last()[d] == p.last();
                    assert(p[d] == p[p.len() - 1]);
                }
            }
        }
    }
}

proof fn lemma_empty_filter(p: spec_fn(u128) -> bool)
    ensures
        Set::<u128>::empty().filter(p).len() == 0,
{
    assert(Set::<u128>::empty().filter(p) =~= Set::<u128>::empty());
}

proof fn lemma_filter_insert_len(s: Set<u128>, x: u128, p: spec_fn(u128) -> bool)
    requires
        s.finite(),
        !s.contains(x),
    ensures
        s.insert(x).filter(p).len() == s.filter(p).len() + if p(x) { 1nat } else { 0nat },
{
    s.lemma_len_filter(p);
    if p(x) {
        assert(s.insert(x).filter(p) =~= s.filter(p).insert(x));
    } else {
        assert(s.insert(x).filter(p) =~= s.filter(p));
    }
}

/// Whether a checkpoint is due at time `now` when the last one was taken
/// at `last` and one is taken every `interval` milliseconds: the interval
/// has passed (no time has passed if `now` is earlier than `last`).
pub open spec fn checkpoint_due_by(last: i64, interval: u64, now: i64) -> bool {
    (if now >= last { now as int - last as int } else { 0int }) >= interval as int
}

/// The counts of a list of states and counts, summed.
pub open spec fn counted(s: Seq<(JobState, usize)>) -> int
    decreases s.len(),
{
    if s.len() == 0 {
        0
    } else {
        s[0].1 as int + counted(s.drop_first())
    }
}

/// The number of jobs of `m` in each of the six states, summed.
pub open spec fn all_state_counts(m: Map<u128, Job>) -> int {
    (state_count(m, JobState::Pending) + state_count(m, JobState::Running) + state_count(m, JobState::Paused)
        + state_count(m, JobState::Completed) + state_count(m, JobState::Failed) + state_count(
        m,
        JobState::Cancelled,
    )) as int
}

/// The number of jobs of `m` in each of `states`, summed.
pub open spec fn counts_of(m: Map<u128, Job>, states: Seq<JobState>) -> int
    decreases states.len(),
{
    if states.len() == 0 {
        0
    } else {
        state_count(m, states[0]) + counts_of(m, states.drop_first())
    }
}

proof fn lemma_count_remove(m: Map<u128, Job>, x: u128, st: JobState)
    requires
        m.dom().finite(),
        m.contains_key(x),
    ensures
        state_count(m, st) == state_count(m.remove(x), st) + if m[x].state == st { 1int } else { 0int },
{
    let m2 = m.remove(x);
    let f = m.dom().filter(|k: u128| m[k].state == st);
    let g = m2.dom().filter(|k: u128| m2[k].state == st);
    m2.dom().lemma_len_filter(|k: u128| m2[k].state == st);
    if m[x].state == st {
        assert(f =~= g.insert(x));
    } else {
        assert(f =~= g);
    }
}

proof fn lemma_all_counts(m: Map<u128, Job>)
    requires
        m.dom().finite(),
    ensures
        all_state_counts(m) == m.dom().len(),
    decreases m.dom().len(),
{
    if m.dom().len() == 0 {
        assert(m.dom() =~= Set::<u128>::empty());
        assert(m.dom().filter(|k: u128| m[k].state == JobState::Pending) =~= Set::<u128>::empty());
        assert(m.dom().filter(|k: u128| m[k].state == JobState::Running) =~= Set::<u128>::empty());
        assert(m.dom().filter(|k: u128| m[k].state == JobState::Paused) =~= Set::<u128>::empty());
        assert(m.dom().filter(|k: u128| m[k].state == JobState::Completed) =~= Set::<u128>::empty());
        assert(m.dom().filter(|k: u128| m[k].state == JobState::Failed) =~= Set::<u128>::empty());
        assert(m.dom().filter(|k: u128| m[k].state == JobState::Cancelled) =~= Set::<u128>::empty());
    } else {
        let x = m.dom().choose();
        assert(m.dom().contains(x));
        let m2 = m.remove(x);
        assert(m2.dom() =~= m.dom().remove(x));
        lemma_all_counts(m2);
        lemma_count_remove(m, x, JobState::Pending);
        lemma_count_remove(m, x, JobState::Running);
        lemma_count_remove(m, x, JobState::Paused);
        lemma_count_remove(m, x, JobState::Completed);
        lemma_count_remove(m, x, JobState::Failed);
        lemma_count_remove(m, x, JobState::Cancelled);
    }
}

proof fn lemma_counted(m: Map<u128, Job>, states: Seq<JobState>)
    requires
        m.dom().finite(),
        m.dom().len() <= usize::MAX,
    ensures
        counted(state_counts(m, states)) == counts_of(m, states),
    decreases states.len(),
{
    if states.len() > 0 {
        lemma_counted(m, states.drop_first());
        m.dom().lemma_len_filter(|k: u128| m[k].state == states[0]);
        let rest = state_counts(m, states.drop_first());
        let c = state_count(m, states[0]);
        if c > 0 {
            let l = seq![(states[0], c as usize)] + rest;
            assert(l.drop_first() =~= rest);
        }
    }
}

/// The counts that statistics give for each state sum to the number of
/// jobs.
pub proof fn stats_counts_sum_to_total(m: JobManager)
    requires
        m.jobs().dom().len() <= usize::MAX,
    ensures
        counted(state_counts(m.jobs(), state_order())) == m.jobs().dom().len(),
{
    let j = m.jobs();
    assert(j.dom().finite()) by {
        m.lemma_jobs_finite();
    }
    lemma_counted(j, state_order());
    lemma_all_counts(j);
    let o = state_order();
    assert(o.drop_first().drop_first().drop_first().drop_first().drop_first().drop_first() =~= Seq::<JobState>::empty());
    reveal_with_fuel(counts_of, 7);
}

/// Statistics of a job manager.
#[derive(Debug)]
pub struct JobStats {
    /// Number of jobs.
    pub total: usize,
    /// Length of the pending queue.
    pub pending: usize,
    /// Length of the running queue.
    pub running: usize,
    /// Each state that some job is in, with the number of such jobs, in the
    /// order pending, running, paused, completed, failed, cancelled.
    pub by_state: Vec<(JobState, usize)>,
}


/// How many more jobs the running queue of `m` takes.
pub open spec fn free_slots(m: JobManager) -> int {
    m.max_concurrent() - m.running().len()
}

/// How many jobs `process_all` takes from the pending queue of `m`: as many
/// as there are free slots, and no more than are waiting.
pub open spec fn batch_len(m: JobManager) -> int {
    if free_slots(m) < m.pending().len() {
        free_slots(m)
    } else {
        m.pending().len() as int
    }
}

/// The first `n` jobs of the pending queue of `m` are pending.
pub open spec fn pending_prefix(m: JobManager, n: int) -> bool {
    forall|i: int|
        0 <= i < n ==> (#[trigger] m.jobs()[m.pending()[i].value]).state == JobState::Pending
}

/// `post` is `pre` after the first `n` jobs of its pending queue started at
/// time `now`, with `dropped` more jobs gone from the front of the pending
/// queue.
pub open spec fn started_prefix(pre: JobManager, post: JobManager, n: int, dropped: int, now: i64) -> bool {
    let ids = pre.pending().take(n);
    &&& post.jobs() == start_all(pre.jobs(), ids, now)
    &&& post.pending() == pre.pending().skip(n + dropped)
    &&& post.running() == pre.running() + ids
    &&& contexts_added(pre.contexts(), post.contexts(), ids, pre.jobs())
    &&& same_settings(pre, post)
}

/// What `process_all` does from `pre`, giving `post` and `r`: it starts the
/// jobs at the front of the pending queue, in order, while the running
/// queue has room, and returns their identifiers. The first of them that is
/// not pending stops it: that job is dropped from the queue, the jobs before
/// it stay started, and the refusal is returned.
pub open spec fn process_all_effect(
    pre: JobManager,
    post: JobManager,
    r: Result<Seq<JobId>, JobError>,
    now: i64,
) -> bool {
    let n = batch_len(pre);
    if pending_prefix(pre, n) {
        r == Ok::<Seq<JobId>, JobError>(pre.pending().take(n)) && started_prefix(pre, post, n, 0, now)
    } else {
        let j = choose|j: int|
            0 <= j < n && pre.jobs()[pre.pending()[j].value].state != JobState::Pending
                && pending_prefix(pre, j);
        &&& r is Err
        &&& r->Err_0 is InvalidState
        &&& r->Err_0->InvalidState_0@ == refusal_text(
            "Cannot start job in state: "@,
            pre.jobs()[pre.pending()[j].value].state,
        )
        &&& started_prefix(pre, post, j, 1, now)
    }
}

proof fn lemma_start_all(m: Map<u128, Job>, ids: Seq<JobId>, now: i64, x: u128)
    ensures
        start_all(m, ids, now).contains_key(x) == (m.contains_key(x) || ids.contains(JobId { value: x })),
        !ids.contains(JobId { value: x }) ==> start_all(m, ids, now)[x] == m[x],
        ids.contains(JobId { value: x }) ==> start_all(m, ids, now)[x] == started_job(m[x], now),
    decreases ids.len(),
{
    if ids.len() > 0 {
        let last = ids[ids.len() - 1];
        lemma_start_all(m, ids.drop_last(), now, x);
        assert(ids =~= ids.drop_last().push(last));
        if ids.drop_last().contains(JobId { value: x }) {
            let i = choose|i: int| 0 <= i < ids.drop_last().len() && ids.drop_last()[i] == JobId { value: x };
            assert(ids[i] == JobId { value: x });
        }
        if ids.contains(JobId { value: x }) && x != last.value {
            let i = choose|i: int| 0 <= i < ids.len() && ids[i] == JobId { value: x };
            assert(ids.drop_last()[i] == JobId { value: x });
        }
    }
}


/// Job `j` has a timeout and has been running longer than it at time `now`.
pub open spec fn timed_out(j: Job, now: i64) -> bool {
    match (j.timeout, j.started_at) {
        (Some(t), Some(s)) => now as int - s as int > t as int,
        _ => false,
    }
}

/// The job `j` failed at time `now` for running past its timeout; `e` is the
/// error it records.
pub open spec fn timed_out_job(j: Job, e: Option<String>, now: i64) -> Job {
    Job { state: JobState::Failed, error: e, completed_at: Some(now), updated_at: now, ..j }
}

/// The message a job that ran past its timeout fails with.
pub open spec fn timeout_text() -> Seq<char> {
    "Job timeout"@
}

/// `post` is `pre` after failing, at time `now`, every job of the running
/// queue that ran past its timeout: those jobs failed with the message
/// "Job timeout", left the running queue and lost their contexts.
pub open spec fn timeout_effect(pre: JobManager, post: JobManager, now: i64) -> bool {
    &&& post.running() == pre.running().filter(|id: JobId| !timed_out(pre.jobs()[id.value], now))
    &&& post.pending() == pre.pending()
    &&& post.jobs().dom() == pre.jobs().dom()
    &&& forall|k: u128| #[trigger]
        pre.jobs().contains_key(k) ==> if pre.running().contains(JobId { value: k }) && timed_out(
            pre.jobs()[k],
            now,
        ) {
            &&& post.jobs()[k] == timed_out_job(pre.jobs()[k], post.jobs()[k].error, now)
            &&& post.jobs()[k].error is Some
            &&& post.jobs()[k].error->0@ == timeout_text()
        } else {
            post.jobs()[k] == pre.jobs()[k]
        }
    &&& forall|k: u128| #[trigger]
        post.contexts().contains_key(k) == (pre.contexts().contains_key(k) && !(
        pre.running().contains(JobId { value: k }) && timed_out(pre.jobs()[k], now)))
    &&& forall|k: u128| #[trigger] post.contexts().contains_key(k) ==> post.contexts()[k] == pre.contexts()[k]
    &&& same_settings(pre, post)
}


/// The jobs, the pending and running queues and the contexts of a manager.
pub type Loaded = (Map<u128, Job>, Seq<JobId>, Seq<JobId>, Map<u128, JobContext>);

/// The jobs, queues and contexts of `m`.
pub open spec fn loaded(m: JobManager) -> Loaded {
    (m.jobs(), m.pending(), m.running(), m.contexts())
}

/// `st` after loading `j` into a manager that runs at most `max` jobs at
/// once. The job is always stored under its identifier, replacing a job
/// with the same identifier, whose places in the queues it takes over: the
/// identifier first leaves both queues. A pending job then joins the back
/// of the pending queue; a running or paused job joins the back of the
/// running queue where that queue has room, and is stored outside the
/// queues where it is full; any other job joins no queue. A context under
/// the identifier is kept only where the job joins the running queue.
pub open spec fn load_one(st: Loaded, max: nat, j: Job) -> Loaded {
    let jobs = st.0.insert(j.id.value, j);
    let pending = without(st.1, j.id);
    let running = without(st.2, j.id);
    if j.state == JobState::Pending {
        (jobs, pending.push(j.id), running, st.3.remove(j.id.value))
    } else if (j.state == JobState::Running || j.state == JobState::Paused) && running.len() < max {
        (jobs, pending, running.push(j.id), st.3)
    } else {
        (jobs, pending, running, st.3.remove(j.id.value))
    }
}

/// `st` after loading each job of `s`, in order; see `load_one`.
pub open spec fn load_each(st: Loaded, max: nat, s: Seq<Job>) -> Loaded
    decreases s.len(),
{
    if s.len() == 0 {
        st
    } else {
        load_one(load_each(st, max, s.drop_last()), max, s.last())
    }
}

/// Some job of `s` has an identifier whose value is `k`.
pub open spec fn loads_id(s: Seq<Job>, k: u128) -> bool {
    exists|i: int| 0 <= i < s.len() && #[trigger] s[i].id.value == k
}

/// No job after position `i` of `s` has the identifier of `s[i]`.
pub open spec fn last_with_id(s: Seq<Job>, i: int) -> bool {
    forall|k: int| i < k < s.len() ==> #[trigger] s[k].id != s[i].id
}

/// Loading a job stores it under its identifier and puts it where its
/// state calls for: a pending job at the back of the pending queue; a
/// running or paused job at the back of the running queue where, once its
/// identifier has left that queue, the queue has room; no other job in any
/// queue. Each queue keeps every other identifier and holds none twice.
pub proof fn load_one_places_job(st: Loaded, max: nat, j: Job)
    requires
        st.1.no_duplicates(),
        st.2.no_duplicates(),
    ensures
        load_one(st, max, j).0 == st.0.insert(j.id.value, j),
        j.state == JobState::Pending ==> load_one(st, max, j).1 == without(st.1, j.id).push(j.id)
            && load_one(st, max, j).2 == without(st.2, j.id),
        (j.state == JobState::Running || j.state == JobState::Paused) && without(st.2, j.id).len() < max
            ==> load_one(st, max, j).2 == without(st.2, j.id).push(j.id) && load_one(st, max, j).1
            == without(st.1, j.id),
        (j.state == JobState::Running || j.state == JobState::Paused) && st.2.len() < max
            ==> load_one(st, max, j).2.last() == j.id,
        load_one(st, max, j).1.contains(j.id) <==> j.state == JobState::Pending,
        load_one(st, max, j).2.contains(j.id) ==> (j.state == JobState::Running || j.state
            == JobState::Paused),
        forall|x: JobId| x != j.id ==> (#[trigger] load_one(st, max, j).1.contains(x) <==> st.1.contains(x)),
        forall|x: JobId| x != j.id ==> (#[trigger] load_one(st, max, j).2.contains(x) <==> st.2.contains(x)),
        load_one(st, max, j).1.no_duplicates(),
        load_one(st, max, j).2.no_duplicates(),
{
    lemma_without(st.1, j.id);
    lemma_without(st.2, j.id);
    let p = without(st.1, j.id);
    let r = without(st.2, j.id);
    let out = load_one(st, max, j);
    assert(p.push(j.id)[p.len() as int] == j.id);
    assert(r.push(j.id)[r.len() as int] == j.id);
    assert forall|x: JobId| #[trigger] p.push(j.id).contains(x) <==> (p.contains(x) || x == j.id) by {
        if p.push(j.id).contains(x) && x != j.id {
            let c = choose|c: int| 0 <= c < p.push(j.id).len() && p.push(j.id)[c] == x;
            assert(p[c] == x);
        }
        if p.contains(x) {
            let c = choose|c: int| 0 <= c < p.len() && p[c] == x;
            assert(p.push(j.id)[c] == x);
        }
    }
    assert forall|x: JobId| #[trigger] r.push(j.id).contains(x) <==> (r.contains(x) || x == j.id) by {
        if r.push(j.id).contains(x) && x != j.id {
            let c = choose|c: int| 0 <= c < r.push(j.id).len() && r.push(j.id)[c] == x;
            assert(r[c] == x);
        }
        if r.contains(x) {
            let c = choose|c: int| 0 <= c < r.len() && r[c] == x;
            assert(r.push(j.id)[c] == x);
        }
    }
    assert(p.push(j.id).no_duplicates()) by {
        assert forall|a: int, b: int| 0 <= a < b < p.push(j.id).len() implies p.push(j.id)[a]
            != p.push(j.id)[b] by {
            if b == p.len() {
                assert(p.contains(p[a]));
            }
        }
    }
    assert(r.push(j.id).no_duplicates()) by {
        assert forall|a: int, b: int| 0 <= a < b < r.push(j.id).len() implies r.push(j.id)[a]
            != r.push(j.id)[b] by {
            if b == r.len() {
                assert(r.contains(r[a]));
            }
        }
    }
}

/// Loading stores every job of `s`: the last one with each identifier is
/// the one kept, and the jobs stored under other identifiers stay.
proof fn lemma_load_each_jobs(st: Loaded, max: nat, s: Seq<Job>)
    ensures
        forall|k: u128| #[trigger]
            load_each(st, max, s).0.contains_key(k) <==> (st.0.contains_key(k) || loads_id(s, k)),
        forall|i: int|
            0 <= i < s.len() && last_with_id(s, i) ==> load_each(st, max, s).0[#[trigger] s[i].id.value]
                == s[i],
        forall|k: u128|
            st.0.contains_key(k) && !loads_id(s, k) ==> #[trigger] load_each(st, max, s).0[k] == st.0[k],
    decreases s.len(),
{
    if s.len() > 0 {
        let t = s.drop_last();
        let x = s.last();
        lemma_load_each_jobs(st, max, t);
        let n = s.len() - 1;
        assert(s[n] == x);
        assert(load_each(st, max, s).0 == load_each(st, max, t).0.insert(x.id.value, x));
        assert forall|k: u128| #[trigger]
            load_each(st, max, s).0.contains_key(k) <==> (st.0.contains_key(k) || loads_id(s, k)) by {
            if loads_id(t, k) {
                let i = choose|i: int| 0 <= i < t.len() && #[trigger] t[i].id.value == k;
                assert(s[i] == t[i]);
            }
            if loads_id(s, k) && k != x.id.value {
                let i = choose|i: int| 0 <= i < s.len() && #[trigger] s[i].id.value == k;
                assert(t[i] == s[i]);
            }
            if k == x.id.value {
                assert(s[n].id.value == k);
            }
        }
        assert forall|i: int|
            0 <= i < s.len() && last_with_id(s, i) implies load_each(st, max, s).0[#[trigger] s[i].id.value]
            == s[i] by {
            if i < n {
                assert(s[n].id != s[i].id);
                assert(t[i] == s[i]);
                assert forall|k: int| i < k < t.len() implies #[trigger] t[k].id != t[i].id by {
                    assert(s[k] == t[k]);
                }
            }
        }
        assert forall|k: u128|
            st.0.contains_key(k) && !loads_id(s, k) implies #[trigger] load_each(st, max, s).0[k]
            == st.0[k] by {
            if loads_id(t, k) {
                let i = choose|i: int| 0 <= i < t.len() && #[trigger] t[i].id.value == k;
                assert(s[i] == t[i]);
            }
            assert(s[n].id.value != k) by {
                if s[n].id.value == k {
                    assert(loads_id(s, k));
                }
            }
        }
    }
}

/// The error that `start_job` gives for job `id` in `pre` when it refuses:
/// an unknown job, a full running queue, or a job that is not pending.
pub open spec fn start_refusal(pre: JobManager, id: JobId, e: JobError) -> bool {
    if !pre.jobs().contains_key(id.value) {
        not_found(e, id)
    } else if pre.running().len() >= pre.max_concurrent() {
        e is InvalidState && e->InvalidState_0@ == queue_full_text()
    } else {
        e is InvalidState && e->InvalidState_0@ == refusal_text(
            "Cannot start job in state: "@,
            pre.jobs()[id.value].state,
        )
    }
}

/// The error that a transition of job `id` gives in `pre` when it refuses:
/// an unknown job, or a state from which the transition (whose sentence is
/// `action`) is not allowed.
pub open spec fn transition_refusal(pre: JobManager, id: JobId, e: JobError, action: Seq<char>) -> bool {
    if !pre.jobs().contains_key(id.value) {
        not_found(e, id)
    } else {
        e is InvalidState && e->InvalidState_0@ == refusal_text(action, pre.jobs()[id.value].state)
    }
}

/// The job `j` completed at time `t` with results `results`.
pub open spec fn completed_job(j: Job, results: Vec<JobResult>, t: i64) -> Job {
    Job { state: JobState::Completed, completed_at: Some(t), results: results, updated_at: t, ..j }
}

/// The job `j` failed at time `t` with error `error`.
pub open spec fn failed_job(j: Job, error: String, t: i64) -> Job {
    Job { state: JobState::Failed, error: Some(error), completed_at: Some(t), updated_at: t, ..j }
}

/// The job `j` cancelled at time `t`.
pub open spec fn cancelled_job(j: Job, t: i64) -> Job {
    Job { state: JobState::Cancelled, completed_at: Some(t), updated_at: t, ..j }
}

/// The job `j` paused at time `t`.
pub open spec fn paused_job(j: Job, t: i64) -> Job {
    Job { state: JobState::Paused, updated_at: t, ..j }
}

/// The job `j` resumed at time `t`.
pub open spec fn resumed_job(j: Job, t: i64) -> Job {
    Job { state: JobState::Running, updated_at: t, ..j }
}

/// The identifiers that a result holds, as a sequence.
pub open spec fn ids_result(r: Result<Vec<JobId>, JobError>) -> Result<Seq<JobId>, JobError> {
    match r {
        Ok(v) => Ok(v@),
        Err(e) => Err(e),
    }
}

/// The kinds of job event that the event processor reacts to.
#[derive(Clone, Copy, Debug, PartialEq, Eq, Structural)]
pub enum JobEventKind {
    Added,
    Started,
    Completed,
    Failed,
    Cancelled,
    Progress,
}

/// Events after which the next pending job is started: a job was added,
/// completed or cancelled.
pub open spec fn starts_next(kind: JobEventKind) -> bool {
    kind == JobEventKind::Added || kind == JobEventKind::Completed || kind == JobEventKind::Cancelled
}

/// Keeps track of jobs: a map from identifiers to jobs, a queue of jobs
/// waiting to start, a queue of started jobs, and the contexts of started
/// jobs. At most `max_concurrent` jobs stand in the running queue. Times
/// are milliseconds since the Unix epoch.
pub struct JobManager {
    jobs: HashMap<u128, Job>,
    contexts: HashMap<u128, JobContext>,
    pending_queue: VecDeque<JobId>,
    running_queue: VecDeque<JobId>,
    max_concurrent: usize,
    checkpoint_interval: u64,
    last_checkpoint: i64,
}

impl JobManager {
    /// The jobs, by the value of their identifier.
    pub closed spec fn jobs(self) -> Map<u128, Job> {
        self.jobs@
    }

    /// The contexts of started jobs, by the value of the job's identifier.
    pub closed spec fn contexts(self) -> Map<u128, JobContext> {
        self.contexts@
    }

    /// The queue of jobs waiting to start, front first.
    pub closed spec fn pending(self) -> Seq<JobId> {
        self.pending_queue@
    }

    /// The queue of started jobs, oldest first.
    pub closed spec fn running(self) -> Seq<JobId> {
        self.running_queue@
    }

    /// The most jobs that may stand in the running queue.
    pub closed spec fn max_concurrent(self) -> usize {
        self.max_concurrent
    }

    /// Milliseconds between two checkpoints.
    pub closed spec fn checkpoint_interval(self) -> u64 {
        self.checkpoint_interval
    }

    /// Time of the last checkpoint.
    pub closed spec fn last_checkpoint(self) -> i64 {
        self.last_checkpoint
    }

    /// `b` holds the same jobs, queues and contexts as `a`.
    pub open spec fn unchanged(a: JobManager, b: JobManager) -> bool {
        &&& b.jobs() == a.jobs()
        &&& b.contexts() == a.contexts()
        &&& b.pending() == a.pending()
        &&& b.running() == a.running()
        &&& b.max_concurrent() == a.max_concurrent()
        &&& b.checkpoint_interval() == a.checkpoint_interval()
        &&& b.last_checkpoint() == a.last_checkpoint()
    }

    /// The manager's invariant:
    /// - each job is stored under the value of its own identifier;
    /// - the pending queue holds known jobs, each once;
    /// - the running queue holds known jobs, each once, each running or
    ///   paused, and no more than `max_concurrent` of them;
    /// - every pending job stands in the pending queue;
    /// - contexts belong to jobs of the running queue, stored under their
    ///   identifier's value.
    pub closed spec fn wf(self) -> bool {
        &&& forall|k: u128| #[trigger] self.jobs@.contains_key(k) ==> self.jobs@[k].id.value == k
        &&& self.pending_queue@.no_duplicates()
        &&& forall|i: int|
            0 <= i < self.pending_queue@.len() ==> self.jobs@.contains_key(
                #[trigger] self.pending_queue@[i].value,
            )
        &&& self.running_queue@.no_duplicates()
        &&& forall|i: int|
            0 <= i < self.running_queue@.len() ==> {
                &&& self.jobs@.contains_key(#[trigger] self.running_queue@[i].value)
                &&& (self.jobs@[self.running_queue@[i].value].state == JobState::Running
                    || self.jobs@[self.running_queue@[i].value].state == JobState::Paused)
            }
        &&& self.running_queue@.len() <= self.max_concurrent
        &&& forall|k: u128|
            #[trigger] self.jobs@.contains_key(k) && self.jobs@[k].state == JobState::Pending
                ==> self.pending_queue@.contains(JobId { value: k })
        &&& forall|k: u128| #[trigger]
            self.contexts@.contains_key(k) ==> self.running_queue@.contains(JobId { value: k })
                && self.contexts@[k].job_id.value == k
    }

    proof fn lemma_jobs_finite(self)
        ensures
            self.jobs().dom().finite(),
    {
        broadcast use vstd::std_specs::hash::axiom_hashmap_view_finite_dom;
    }

    /// An empty manager that runs at most `max_concurrent` jobs at once,
    /// checkpointing every 30 seconds, the last checkpoint taken at `now`.
    pub fn new_at(max_concurrent: usize, now: i64) -> (r: JobManager)
        ensures
            r.wf(),
            r.jobs().is_empty(),
            r.contexts().is_empty(),
            r.pending().len() == 0,
            r.running().len() == 0,
            r.max_concurrent() == max_concurrent,
            r.checkpoint_interval() == 30000,
            r.last_checkpoint() == now,
    {
        JobManager {
            jobs: HashMap::new(),
            contexts: HashMap::new(),
            pending_queue: VecDeque::new(),
            running_queue: VecDeque::new(),
            max_concurrent,
            checkpoint_interval: 30000,
            last_checkpoint: now,
        }
    }

    /// An empty manager, its last checkpoint taken now; see `new_at`.
    pub fn new(max_concurrent: usize) -> (r: JobManager)
        ensures
            r.wf(),
            r.jobs().is_empty(),
            r.contexts().is_empty(),
            r.pending().len() == 0,
            r.running().len() == 0,
            r.max_concurrent() == max_concurrent,
            r.checkpoint_interval() == 30000,
    {
        let now = unix_millis_now();
        JobManager::new_at(max_concurrent, now)
    }

    /// Adds a job and puts it at the back of the pending queue. A job whose
    /// identifier is already known is refused with `AlreadyExists`.
    pub fn add_job(&mut self, job: Job) -> (r: Result<JobId, JobError>)
        requires
            old(self).wf(),
        ensures
            final(self).wf(),
            r is Ok <==> !old(self).jobs().contains_key(job.id.value),
            r is Ok ==> {
                &&& r->Ok_0 == job.id
                &&& final(self).jobs() == old(self).jobs().insert(job.id.value, job)
                &&& final(self).pending() == old(self).pending().push(job.id)
                &&& final(self).running() == old(self).running()
                &&& final(self).contexts() == old(self).contexts()
                &&& final(self).max_concurrent() == old(self).max_concurrent()
                &&& final(self).checkpoint_interval() == old(self).checkpoint_interval()
                &&& final(self).last_checkpoint() == old(self).last_checkpoint()
            },
            r is Err ==> JobManager::unchanged(*old(self), *final(self)) && r->Err_0 is AlreadyExists
                && r->Err_0->AlreadyExists_0@ == uuid_text(job.id.value),
    {
        let id = job.id;
        if self.jobs.contains_key(&id.value) {
            return Err(JobError::AlreadyExists(id.to_text()));
        }
        let ghost pre = *self;
        self.jobs.insert(id.value, job);
        proof {
            assert(!pre.pending_queue@.contains(id)) by {
                if pre.pending_queue@.contains(id) {
                    let i = choose|i: int|
                        0 <= i < pre.pending_queue@.len() && pre.pending_queue@[i] == id;
                    assert(pre.jobs@.contains_key(pre.pending_queue@[i].value));
                }
            }
        }
        self.pending_queue.push_back(id);
        proof {
            assert forall|k: u128| #[trigger]
                self.jobs@.contains_key(k) && self.jobs@[k].state == JobState::Pending
                    implies self.pending_queue@.contains(JobId { value: k }) by {
                if k == id.value {
                    assert(self.pending_queue@[self.pending_queue@.len() - 1] == id);
                } else {
                    let i = choose|i: int|
                        0 <= i < pre.pending_queue@.len() && pre.pending_queue@[i] == JobId {
                            value: k,
                        };
                    assert(self.pending_queue@[i] == JobId { value: k });
                }
            }
            assert forall|k: u128| #[trigger]
                self.contexts@.contains_key(k) implies self.running_queue@.contains(JobId { value: k })
                && self.contexts@[k].job_id.value == k by {
            }
            assert forall|i: int|
                0 <= i < self.running_queue@.len() implies {
                    &&& self.jobs@.contains_key(#[trigger] self.running_queue@[i].value)
                    &&& (self.jobs@[self.running_queue@[i].value].state == JobState::Running
                        || self.jobs@[self.running_queue@[i].value].state == JobState::Paused)
                } by {
                assert(pre.jobs@.contains_key(self.running_queue@[i].value));
            }
        }
        Ok(id)
    }

    /// Starts a pending job at time `now`: the job becomes running, leaves
    /// the pending queue, joins the back of the running queue, and gets a
    /// fresh context. Refused, with nothing changed: an unknown job
    /// (`NotFound`), a full running queue, and a job that is not pending
    /// (both `InvalidState`), checked in that order.
    pub fn start_job_at(&mut self, job_id: &JobId, now: i64) -> (r: Result<(), JobError>)
        requires
            old(self).wf(),
        ensures
            final(self).wf(),
            r is Ok <==> start_allowed(*old(self), *job_id),
            r is Err ==> JobManager::unchanged(*old(self), *final(self)),
            !old(self).jobs().contains_key(job_id.value) ==> not_found(r->Err_0, *job_id),
            old(self).jobs().contains_key(job_id.value) && old(self).running().len()
                >= old(self).max_concurrent() ==> r->Err_0 is InvalidState && r->Err_0->InvalidState_0@
                == queue_full_text(),
            old(self).jobs().contains_key(job_id.value) && old(self).running().len()
                < old(self).max_concurrent() && old(self).jobs()[job_id.value].state
                != JobState::Pending ==> r->Err_0 is InvalidState && r->Err_0->InvalidState_0@
                == refusal_text(
                "Cannot start job in state: "@,
                old(self).jobs()[job_id.value].state,
            ),
            r is Ok ==> start_effect(*old(self), *final(self), *job_id, now),
    {
        let k = job_id.value;
        let ghost pre = *self;
        match self.jobs.get(&k) {
            Some(_) => {},
            None => {
                return Err(JobError::NotFound(job_id.to_text()));
            },
        }
        if self.running_queue.len() >= self.max_concurrent {
            return Err(JobError::InvalidState(String::from_str("Maximum concurrent jobs reached")));
        }
        if !self.jobs.contains_key(&k) {
            return Err(JobError::NotFound(job_id.to_text()));
        }
        let mut job = self.jobs.remove(&k).unwrap();
        let ghost old_job = job;
        match job.start_at(now) {
            Ok(()) => {},
            Err(e) => {
                self.jobs.insert(k, job);
                proof {
                    assert(self.jobs@ =~= pre.jobs@);
                }
                return Err(e);
            },
        }
        let ctx = ContextBuilder::new(job.id, job.project_id, job.operation_id, job.actor_id).build();
        self.jobs.insert(k, job);
        proof {
            lemma_without(pre.pending_queue@, *job_id);
            assert(!pre.running_queue@.contains(*job_id)) by {
                if pre.running_queue@.contains(*job_id) {
                    let i = choose|i: int|
                        0 <= i < pre.running_queue@.len() && pre.running_queue@[i] == *job_id;
                    assert(pre.jobs@.contains_key(pre.running_queue@[i].value));
                }
            }
        }
        remove_first(&mut self.pending_queue, *job_id);
        self.running_queue.push_back(*job_id);
        self.contexts.insert(k, ctx);
        proof {
            assert(self.jobs@ =~= pre.jobs@.insert(k, Job {
                state: JobState::Running,
                started_at: Some(now),
                updated_at: now,
                ..old_job
            }));
            assert(self.contexts@.remove(k) =~= pre.contexts@.remove(k));
            let ids = seq![*job_id];
            assert(ids[0] == *job_id);
            assert forall|k2: u128| #[trigger]
                self.contexts@.contains_key(k2) <==> (pre.contexts@.contains_key(k2) || ids.contains(
                    JobId { value: k2 },
                )) by {
                if ids.contains(JobId { value: k2 }) {
                    let i = choose|i: int| 0 <= i < ids.len() && ids[i] == JobId { value: k2 };
                    assert(k2 == k);
                }
                if k2 == k {
                    assert(ids.contains(JobId { value: k2 }));
                }
            }
            assert forall|k2: u128|
                #[trigger] pre.contexts@.contains_key(k2) && !ids.contains(JobId { value: k2 })
                    implies self.contexts@[k2] == pre.contexts@[k2] by {
                if k2 == k {
                    assert(ids.contains(JobId { value: k2 }));
                }
            }
            let n = self.running_queue@.len() - 1;
            assert(self.running_queue@[n] == *job_id);
            assert forall|i: int|
                0 <= i < self.pending_queue@.len() implies self.jobs@.contains_key(
                #[trigger] self.pending_queue@[i].value,
            ) by {
                assert(pre.pending_queue@.contains(self.pending_queue@[i]));
            }
            assert forall|i: int|
                0 <= i < self.running_queue@.len() implies {
                    &&& self.jobs@.contains_key(#[trigger] self.running_queue@[i].value)
                    &&& (self.jobs@[self.running_queue@[i].value].state == JobState::Running
                        || self.jobs@[self.running_queue@[i].value].state == JobState::Paused)
                } by {
                if i < n {
                    assert(pre.running_queue@[i] == self.running_queue@[i]);
                    assert(self.running_queue@[i] != *job_id);
                }
            }
            assert forall|k2: u128| #[trigger]
                self.jobs@.contains_key(k2) && self.jobs@[k2].state == JobState::Pending
                    implies self.pending_queue@.contains(JobId { value: k2 }) by {
                assert(k2 != k);
                assert(pre.pending_queue@.contains(JobId { value: k2 }));
            }
            assert forall|k2: u128| #[trigger]
                self.contexts@.contains_key(k2) implies self.running_queue@.contains(
                JobId { value: k2 },
            ) && self.contexts@[k2].job_id.value == k2 by {
                if k2 != k {
                    let i = choose|i: int|
                        0 <= i < pre.running_queue@.len() && pre.running_queue@[i] == JobId {
                            value: k2,
                        };
                    assert(self.running_queue@[i] == JobId { value: k2 });
                }
            }
        }
        Ok(())
    }

    /// Puts back a job that has ended, taking it out of the running queue
    /// (and, where `from_pending`, the pending queue) and dropping its
    /// context.
    fn finish(&mut self, job_id: JobId, ended: Job, from_pending: bool, Ghost(pre): Ghost<JobManager>)
        requires
            pre.wf(),
            pre.jobs().contains_key(job_id.value),
            old(self).jobs() == pre.jobs().remove(job_id.value),
            old(self).pending() == pre.pending(),
            old(self).running() == pre.running(),
            old(self).contexts() == pre.contexts(),
            same_settings(pre, *old(self)),
            ended.id == job_id,
            ended.state == JobState::Completed || ended.state == JobState::Failed || ended.state
                == JobState::Cancelled,
        ensures
            final(self).wf(),
            end_effect(pre, *final(self), job_id, ended, from_pending),
    {
        let k = job_id.value;
        self.jobs.insert(k, ended);
        proof {
            lemma_without(pre.pending_queue@, job_id);
            lemma_without(pre.running_queue@, job_id);
        }
        if from_pending {
            remove_first(&mut self.pending_queue, job_id);
        }
        remove_first(&mut self.running_queue, job_id);
        self.contexts.remove(&k);
        proof {
            assert(self.jobs@ =~= pre.jobs@.insert(k, ended));
            assert forall|i: int|
                0 <= i < self.pending_queue@.len() implies self.jobs@.contains_key(
                #[trigger] self.pending_queue@[i].value,
            ) by {
                assert(pre.pending_queue@.contains(self.pending_queue@[i]));
            }
            assert forall|i: int|
                0 <= i < self.running_queue@.len() implies {
                    &&& self.jobs@.contains_key(#[trigger] self.running_queue@[i].value)
                    &&& (self.jobs@[self.running_queue@[i].value].state == JobState::Running
                        || self.jobs@[self.running_queue@[i].value].state == JobState::Paused)
                } by {
                let x = self.running_queue@[i];
                assert(self.running_queue@.contains(x));
                assert(x != job_id);
                assert(pre.running_queue@.contains(x));
                let j = choose|j: int| 0 <= j < pre.running_queue@.len() && pre.running_queue@[j] == x;
                assert(pre.jobs@.contains_key(pre.running_queue@[j].value));
            }
            assert forall|k2: u128| #[trigger]
                self.jobs@.contains_key(k2) && self.jobs@[k2].state == JobState::Pending
                    implies self.pending_queue@.contains(JobId { value: k2 }) by {
                assert(k2 != k);
                assert(pre.pending_queue@.contains(JobId { value: k2 }));
            }
            assert forall|k2: u128| #[trigger]
                self.contexts@.contains_key(k2) implies self.running_queue@.contains(
                JobId { value: k2 },
            ) && self.contexts@[k2].job_id.value == k2 by {
                assert(k2 != k);
                assert(pre.running_queue@.contains(JobId { value: k2 }));
            }
        }
    }

    /// Completes a running job at time `now` with the given results: it
    /// leaves the running queue and loses its context. Refused, with nothing
    /// changed: an unknown job (`NotFound`) and a job that is not running
    /// (`InvalidState`).
    pub fn complete_job_at(&mut self, job_id: &JobId, results: Vec<JobResult>, now: i64) -> (r:
        Result<(), JobError>)
        requires
            old(self).wf(),
        ensures
            final(self).wf(),
            r is Ok <==> (old(self).jobs().contains_key(job_id.value) && old(self).jobs()[job_id.value].state
                == JobState::Running),
            r is Err ==> JobManager::unchanged(*old(self), *final(self)),
            !old(self).jobs().contains_key(job_id.value) ==> not_found(r->Err_0, *job_id),
            old(self).jobs().contains_key(job_id.value) && r is Err ==> r->Err_0 is InvalidState
                && r->Err_0->InvalidState_0@ == refusal_text(
                "Cannot complete job in state: "@,
                old(self).jobs()[job_id.value].state,
            ),
            r is Ok ==> end_effect(
                *old(self),
                *final(self),
                *job_id,
                Job {
                    state: JobState::Completed,
                    completed_at: Some(now),
                    results: results,
                    updated_at: now,
                    ..old(self).jobs()[job_id.value]
                },
                false,
            ),
    {
        let k = job_id.value;
        let ghost pre = *self;
        if !self.jobs.contains_key(&k) {
            return Err(JobError::NotFound(job_id.to_text()));
        }
        let mut job = self.jobs.remove(&k).unwrap();
        match job.complete_at(results, now) {
            Ok(()) => {},
            Err(e) => {
                self.jobs.insert(k, job);
                proof {
                    assert(self.jobs@ =~= pre.jobs@);
                }
                return Err(e);
            },
        }
        self.finish(*job_id, job, false, Ghost(pre));
        Ok(())
    }

    /// Fails a job that has not completed or failed, at time `now`: it
    /// leaves both queues and loses its context. Refused, with nothing changed: an unknown job
    /// (`NotFound`) and a completed or failed job (`InvalidState`).
    pub fn fail_job_at(&mut self, job_id: &JobId, error: String, now: i64) -> (r: Result<(), JobError>)
        requires
            old(self).wf(),
        ensures
            final(self).wf(),
            r is Ok <==> (old(self).jobs().contains_key(job_id.value) && old(self).jobs()[job_id.value].state
                != JobState::Completed && old(self).jobs()[job_id.value].state != JobState::Failed),
            r is Err ==> JobManager::unchanged(*old(self), *final(self)),
            !old(self).jobs().contains_key(job_id.value) ==> not_found(r->Err_0, *job_id),
            old(self).jobs().contains_key(job_id.value) && r is Err ==> r->Err_0 is InvalidState
                && r->Err_0->InvalidState_0@ == refusal_text(
                "Cannot fail job in state: "@,
                old(self).jobs()[job_id.value].state,
            ),
            r is Ok ==> end_effect(
                *old(self),
                *final(self),
                *job_id,
                Job {
                    state: JobState::Failed,
                    error: Some(error),
                    completed_at: Some(now),
                    updated_at: now,
                    ..old(self).jobs()[job_id.value]
                },
                true,
            ),
    {
        let k = job_id.value;
        let ghost pre = *self;
        if !self.jobs.contains_key(&k) {
            return Err(JobError::NotFound(job_id.to_text()));
        }
        let mut job = self.jobs.remove(&k).unwrap();
        match job.fail_at(error, now) {
            Ok(()) => {},
            Err(e) => {
                self.jobs.insert(k, job);
                proof {
                    assert(self.jobs@ =~= pre.jobs@);
                }
                return Err(e);
            },
        }
        self.finish(*job_id, job, true, Ghost(pre));
        Ok(())
    }

    /// Cancels a job that has not completed or failed, at time `now`: it
    /// leaves both queues and loses its context. Refused, with nothing
    /// changed: an unknown job (`NotFound`) and a completed or failed job
    /// (`InvalidState`).
    pub fn cancel_job_at(&mut self, job_id: &JobId, now: i64) -> (r: Result<(), JobError>)
        requires
            old(self).wf(),
        ensures
            final(self).wf(),
            r is Ok <==> (old(self).jobs().contains_key(job_id.value) && old(self).jobs()[job_id.value].state
                != JobState::Completed && old(self).jobs()[job_id.value].state != JobState::Failed),
            r is Err ==> JobManager::unchanged(*old(self), *final(self)),
            !old(self).jobs().contains_key(job_id.value) ==> not_found(r->Err_0, *job_id),
            old(self).jobs().contains_key(job_id.value) && r is Err ==> r->Err_0 is InvalidState
                && r->Err_0->InvalidState_0@ == refusal_text(
                "Cannot cancel job in state: "@,
                old(self).jobs()[job_id.value].state,
            ),
            r is Ok ==> end_effect(
                *old(self),
                *final(self),
                *job_id,
                Job {
                    state: JobState::Cancelled,
                    completed_at: Some(now),
                    updated_at: now,
                    ..old(self).jobs()[job_id.value]
                },
                true,
            ),
    {
        let k = job_id.value;
        let ghost pre = *self;
        if !self.jobs.contains_key(&k) {
            return Err(JobError::NotFound(job_id.to_text()));
        }
        let mut job = self.jobs.remove(&k).unwrap();
        match job.cancel_at(now) {
            Ok(()) => {},
            Err(e) => {
                self.jobs.insert(k, job);
                proof {
                    assert(self.jobs@ =~= pre.jobs@);
                }
                return Err(e);
            },
        }
        self.finish(*job_id, job, true, Ghost(pre));
        Ok(())
    }

    /// Pauses a running job at time `now`; it keeps its place in the
    /// queues and its context. Refused, with nothing changed: an unknown job
    /// (`NotFound`) and a job that is not running (`InvalidState`).
    pub fn pause_job_at(&mut self, job_id: &JobId, now: i64) -> (r: Result<(), JobError>)
        requires
            old(self).wf(),
        ensures
            final(self).wf(),
            r is Ok <==> (old(self).jobs().contains_key(job_id.value) && old(self).jobs()[job_id.value].state
                == JobState::Running),
            r is Err ==> JobManager::unchanged(*old(self), *final(self)),
            !old(self).jobs().contains_key(job_id.value) ==> not_found(r->Err_0, *job_id),
            old(self).jobs().contains_key(job_id.value) && r is Err ==> r->Err_0 is InvalidState
                && r->Err_0->InvalidState_0@ == refusal_text(
                "Cannot pause job in state: "@,
                old(self).jobs()[job_id.value].state,
            ),
            r is Ok ==> update_effect(
                *old(self),
                *final(self),
                *job_id,
                Job { state: JobState::Paused, updated_at: now, ..old(self).jobs()[job_id.value] },
            ),
    {
        let k = job_id.value;
        let ghost pre = *self;
        if !self.jobs.contains_key(&k) {
            return Err(JobError::NotFound(job_id.to_text()));
        }
        let mut job = self.jobs.remove(&k).unwrap();
        let r = job.pause_at(now);
        let ghost changed = job;
        self.jobs.insert(k, job);
        proof {
            assert(self.jobs@ =~= pre.jobs@.insert(k, changed));
            if r is Err {
                assert(self.jobs@ =~= pre.jobs@);
            }
            assert forall|i: int|
                0 <= i < self.running_queue@.len() implies {
                    &&& self.jobs@.contains_key(#[trigger] self.running_queue@[i].value)
                    &&& (self.jobs@[self.running_queue@[i].value].state == JobState::Running
                        || self.jobs@[self.running_queue@[i].value].state == JobState::Paused)
                } by {
                assert(pre.jobs@.contains_key(pre.running_queue@[i].value));
            }
            assert forall|k2: u128| #[trigger]
                self.jobs@.contains_key(k2) && self.jobs@[k2].state == JobState::Pending
                    implies self.pending_queue@.contains(JobId { value: k2 }) by {
                assert(pre.jobs@.contains_key(k2));
            }
        }
        r
    }

    /// Resumes a paused job at time `now`; it keeps its place in the queues
    /// and its context. Refused, with nothing changed: an unknown job
    /// (`NotFound`) and a job that is not paused (`InvalidState`).
    pub fn resume_job_at(&mut self, job_id: &JobId, now: i64) -> (r: Result<(), JobError>)
        requires
            old(self).wf(),
        ensures
            final(self).wf(),
            r is Ok <==> (old(self).jobs().contains_key(job_id.value) && old(self).jobs()[job_id.value].state
                == JobState::Paused),
            r is Err ==> JobManager::unchanged(*old(self), *final(self)),
            !old(self).jobs().contains_key(job_id.value) ==> not_found(r->Err_0, *job_id),
            old(self).jobs().contains_key(job_id.value) && r is Err ==> r->Err_0 is InvalidState
                && r->Err_0->InvalidState_0@ == refusal_text(
                "Cannot resume job in state: "@,
                old(self).jobs()[job_id.value].state,
            ),
            r is Ok ==> update_effect(
                *old(self),
                *final(self),
                *job_id,
                Job { state: JobState::Running, updated_at: now, ..old(self).jobs()[job_id.value] },
            ),
    {
        let k = job_id.value;
        let ghost pre = *self;
        if !self.jobs.contains_key(&k) {
            return Err(JobError::NotFound(job_id.to_text()));
        }
        let mut job = self.jobs.remove(&k).unwrap();
        let r = job.resume_at(now);
        let ghost changed = job;
        self.jobs.insert(k, job);
        proof {
            assert(self.jobs@ =~= pre.jobs@.insert(k, changed));
            if r is Err {
                assert(self.jobs@ =~= pre.jobs@);
            }
            assert forall|i: int|
                0 <= i < self.running_queue@.len() implies {
                    &&& self.jobs@.contains_key(#[trigger] self.running_queue@[i].value)
                    &&& (self.jobs@[self.running_queue@[i].value].state == JobState::Running
                        || self.jobs@[self.running_queue@[i].value].state == JobState::Paused)
                } by {
                assert(pre.jobs@.contains_key(pre.running_queue@[i].value));
            }
            assert forall|k2: u128| #[trigger]
                self.jobs@.contains_key(k2) && self.jobs@[k2].state == JobState::Pending
                    implies self.pending_queue@.contains(JobId { value: k2 }) by {
                assert(pre.jobs@.contains_key(k2));
            }
        }
        r
    }

    /// Removes a job and returns it: it leaves both queues and loses its
    /// context. An unknown job is refused with `NotFound`, nothing changed.
    pub fn remove_job(&mut self, job_id: &JobId) -> (r: Result<Job, JobError>)
        requires
            old(self).wf(),
        ensures
            final(self).wf(),
            r is Ok <==> old(self).jobs().contains_key(job_id.value),
            r is Err ==> JobManager::unchanged(*old(self), *final(self)) && not_found(
                r->Err_0,
                *job_id,
            ),
            r is Ok ==> {
                &&& r->Ok_0 == old(self).jobs()[job_id.value]
                &&& final(self).jobs() == old(self).jobs().remove(job_id.value)
                &&& final(self).pending() == without(old(self).pending(), *job_id)
                &&& final(self).running() == without(old(self).running(), *job_id)
                &&& final(self).contexts() == old(self).contexts().remove(job_id.value)
                &&& same_settings(*old(self), *final(self))
            },
    {
        let k = job_id.value;
        let ghost pre = *self;
        if !self.jobs.contains_key(&k) {
            return Err(JobError::NotFound(job_id.to_text()));
        }
        let job = self.jobs.remove(&k).unwrap();
        proof {
            lemma_without(pre.pending_queue@, *job_id);
            lemma_without(pre.running_queue@, *job_id);
        }
        remove_first(&mut self.pending_queue, *job_id);
        remove_first(&mut self.running_queue, *job_id);
        self.contexts.remove(&k);
        proof {
            assert forall|i: int|
                0 <= i < self.pending_queue@.len() implies self.jobs@.contains_key(
                #[trigger] self.pending_queue@[i].value,
            ) by {
                let x = self.pending_queue@[i];
                assert(self.pending_queue@.contains(x));
                assert(x != *job_id);
                assert(pre.pending_queue@.contains(x));
                let j = choose|j: int| 0 <= j < pre.pending_queue@.len() && pre.pending_queue@[j] == x;
                assert(pre.jobs@.contains_key(pre.pending_queue@[j].value));
            }
            assert forall|i: int|
                0 <= i < self.running_queue@.len() implies {
                    &&& self.jobs@.contains_key(#[trigger] self.running_queue@[i].value)
                    &&& (self.jobs@[self.running_queue@[i].value].state == JobState::Running
                        || self.jobs@[self.running_queue@[i].value].state == JobState::Paused)
                } by {
                let x = self.running_queue@[i];
                assert(self.running_queue@.contains(x));
                assert(x != *job_id);
                assert(pre.running_queue@.contains(x));
                let j = choose|j: int| 0 <= j < pre.running_queue@.len() && pre.running_queue@[j] == x;
                assert(pre.jobs@.contains_key(pre.running_queue@[j].value));
            }
            assert forall|k2: u128| #[trigger]
                self.jobs@.contains_key(k2) && self.jobs@[k2].state == JobState::Pending
                    implies self.pending_queue@.contains(JobId { value: k2 }) by {
                assert(k2 != k);
                assert(pre.pending_queue@.contains(JobId { value: k2 }));
            }
            assert forall|k2: u128| #[trigger]
                self.contexts@.contains_key(k2) implies self.running_queue@.contains(
                JobId { value: k2 },
            ) && self.contexts@[k2].job_id.value == k2 by {
                assert(k2 != k);
                assert(pre.running_queue@.contains(JobId { value: k2 }));
            }
        }
        Ok(job)
    }

    /// A copy of the job with the given identifier; `NotFound` for an
    /// unknown job.
    pub fn get_job(&self, job_id: &JobId) -> (r: Result<Job, JobError>)
        ensures
            r is Ok <==> self.jobs().contains_key(job_id.value),
            r is Ok ==> r->Ok_0.same_as(self.jobs()[job_id.value]),
            self.wf() && r is Ok ==> r->Ok_0.id == *job_id,
            r is Err ==> not_found(r->Err_0, *job_id),
    {
        match self.jobs.get(&job_id.value) {
            Some(j) => Ok(j.duplicate()),
            None => Err(JobError::NotFound(job_id.to_text())),
        }
    }

    /// A copy of the context of the given job, if it has one.
    pub fn get_context(&self, job_id: &JobId) -> (r: Option<JobContext>)
        ensures
            r is Some <==> self.contexts().contains_key(job_id.value),
            r is Some ==> r->0.same_as(self.contexts()[job_id.value]),
            self.wf() && r is Some ==> r->0.job_id == *job_id,
    {
        match self.contexts.get(&job_id.value) {
            Some(c) => Some(c.duplicate()),
            None => None,
        }
    }

    /// Copies of the jobs that `filter` selects.
    pub fn select_jobs(&self, filter: &JobFilter) -> (r: Vec<Job>)
        requires
            self.wf(),
        ensures
            lists_selected(r@, self.jobs(), *filter),
    {
        let keys = key_list(&self.jobs);
        let mut r: Vec<Job> = Vec::new();
        let mut i: usize = 0;
        while i < keys.len()
            invariant
                self.wf(),
                keys@.to_set() == self.jobs@.dom(),
                keys@.no_duplicates(),
                i <= keys@.len(),
                forall|a: int|
                    0 <= a < r@.len() ==> self.jobs@.contains_key(#[trigger] r@[a].id.value)
                        && r@[a].same_as(self.jobs@[r@[a].id.value]) && selects(
                        *filter,
                        self.jobs@[r@[a].id.value],
                    ) && keys@.subrange(0, i as int).contains(r@[a].id.value),
                forall|a: int, b: int|
                    0 <= a < b < r@.len() ==> #[trigger] r@[a].id != #[trigger] r@[b].id,
                forall|a: int|
                    0 <= a < i && selects(*filter, self.jobs@[keys@[a]]) ==> exists|b: int|
                        0 <= b < r@.len() && r@[b].id.value == #[trigger] keys@[a],
            decreases keys@.len() - i,
        {
            let k = keys[i];
            assert(keys@.to_set().contains(k));
            let j = self.jobs.get(&k).unwrap();
            let take = match filter {
                JobFilter::All => true,
                JobFilter::State(st) => j.state == *st,
                JobFilter::Project(p) => j.project_id == *p,
                JobFilter::Actor(a) => j.actor_id == *a,
            };
            if take {
                let ghost before = r@;
                proof {
                    assert forall|a: int| 0 <= a < before.len() implies before[a].id.value != k by {
                        let c = choose|c: int| 0 <= c < i && keys@[c] == before[a].id.value;
                        assert(keys@.subrange(0, i as int)[c] == keys@[c]);
                    }
                }
                r.push(j.duplicate());
                proof {
                    assert(r@[r@.len() - 1].id.value == k);
                    assert forall|a: int|
                        0 <= a < i + 1 && selects(*filter, self.jobs@[keys@[a]]) implies exists|b: int|
                        0 <= b < r@.len() && r@[b].id.value == #[trigger] keys@[a] by {
                        if a == i {
                            assert(r@[r@.len() - 1].id.value == keys@[a]);
                        } else {
                            let b = choose|b: int| 0 <= b < before.len() && before[b].id.value == keys@[a];
                            assert(r@[b] == before[b]);
                        }
                    }
                }
            }
            proof {
                assert forall|a: int|
                    0 <= a < r@.len() implies keys@.subrange(0, i + 1).contains(
                    #[trigger] r@[a].id.value,
                ) by {
                    if r@[a].id.value == k {
                        assert(keys@.subrange(0, i + 1)[i as int] == k);
                    } else {
                        let c = choose|c: int|
                            0 <= c < i && keys@.subrange(0, i as int)[c] == r@[a].id.value;
                        assert(keys@.subrange(0, i + 1)[c] == r@[a].id.value);
                    }
                }
            }
            i = i + 1;
        }
        proof {
            assert forall|k: u128|
                #[trigger] self.jobs@.contains_key(k) && selects(*filter, self.jobs@[k]) implies exists|
                b: int,
            | 0 <= b < r@.len() && r@[b].id.value == k by {
                assert(keys@.to_set().contains(k));
                let a = choose|a: int| 0 <= a < keys@.len() && keys@[a] == k;
                assert(selects(*filter, self.jobs@[keys@[a]]));
            }
        }
        r
    }

    /// Copies of all jobs.
    pub fn get_all_jobs(&self) -> (r: Vec<Job>)
        requires
            self.wf(),
        ensures
            lists_selected(r@, self.jobs(), JobFilter::All),
    {
        self.select_jobs(&JobFilter::All)
    }

    /// Copies of the jobs in the given state.
    pub fn get_jobs_by_state(&self, state: JobState) -> (r: Vec<Job>)
        requires
            self.wf(),
        ensures
            lists_selected(r@, self.jobs(), JobFilter::State(state)),
    {
        self.select_jobs(&JobFilter::State(state))
    }

    /// Copies of the jobs of the given project.
    pub fn get_jobs_by_project(&self, project_id: &ProjectId) -> (r: Vec<Job>)
        requires
            self.wf(),
        ensures
            lists_selected(r@, self.jobs(), JobFilter::Project(*project_id)),
    {
        self.select_jobs(&JobFilter::Project(*project_id))
    }

    /// Copies of the jobs of the given actor.
    pub fn get_jobs_by_actor(&self, actor_id: &ActorId) -> (r: Vec<Job>)
        requires
            self.wf(),
        ensures
            lists_selected(r@, self.jobs(), JobFilter::Actor(*actor_id)),
    {
        self.select_jobs(&JobFilter::Actor(*actor_id))
    }

    /// The number of jobs, the lengths of both queues, and the number of
    /// jobs in each state that some job is in.
    pub fn stats(&self) -> (r: JobStats)
        ensures
            r.total == self.jobs().dom().len(),
            r.pending == self.pending().len(),
            r.running == self.running().len(),
            r.by_state@ == state_counts(self.jobs(), state_order()),
    {
        let keys = key_list(&self.jobs);
        let ghost m = self.jobs@;
        let mut c0: usize = 0;
        let mut c1: usize = 0;
        let mut c2: usize = 0;
        let mut c3: usize = 0;
        let mut c4: usize = 0;
        let mut c5: usize = 0;
        let mut i: usize = 0;
        proof {
            assert(keys@.take(0).to_set() =~= Set::<u128>::empty());
            lemma_empty_filter(|k: u128| m[k].state == JobState::Pending);
            lemma_empty_filter(|k: u128| m[k].state == JobState::Running);
            lemma_empty_filter(|k: u128| m[k].state == JobState::Paused);
            lemma_empty_filter(|k: u128| m[k].state == JobState::Completed);
            lemma_empty_filter(|k: u128| m[k].state == JobState::Failed);
            lemma_empty_filter(|k: u128| m[k].state == JobState::Cancelled);
        }
        while i < keys.len()
            invariant
                m == self.jobs@,
                keys@.to_set() == m.dom(),
                keys@.no_duplicates(),
                keys@.len() == m.dom().len(),
                i <= keys@.len(),
                c0 == keys@.take(i as int).to_set().filter(|k: u128| m[k].state == JobState::Pending).len(),
                c1 == keys@.take(i as int).to_set().filter(|k: u128| m[k].state == JobState::Running).len(),
                c2 == keys@.take(i as int).to_set().filter(|k: u128| m[k].state == JobState::Paused).len(),
                c3 == keys@.take(i as int).to_set().filter(|k: u128| m[k].state == JobState::Completed).len(),
                c4 == keys@.take(i as int).to_set().filter(|k: u128| m[k].state == JobState::Failed).len(),
                c5 == keys@.take(i as int).to_set().filter(|k: u128| m[k].state == JobState::Cancelled).len(),
                c0 <= i && c1 <= i && c2 <= i && c3 <= i && c4 <= i && c5 <= i,
            decreases keys@.len() - i,
        {
            let k = keys[i];
            assert(keys@.contains(k));
            assert(keys@.to_set().contains(k));
            let st = self.jobs.get(&k).unwrap().state;
            proof {
                let before = keys@.take(i as int);
                assert(keys@.take(i + 1) =~= before.push(k));
                before.lemma_push_to_set_commute(k);
                assert(!before.to_set().contains(k)) by {
                    if before.to_set().contains(k) {
                        let c = choose|c: int| 0 <= c < before.len() && before[c] == k;
                        assert(keys@[c] == keys@[i as int]);
                    }
                }
                before.unique_seq_to_set();
                lemma_filter_insert_len(before.to_set(), k, |k: u128| m[k].state == JobState::Pending);
                lemma_filter_insert_len(before.to_set(), k, |k: u128| m[k].state == JobState::Running);
                lemma_filter_insert_len(before.to_set(), k, |k: u128| m[k].state == JobState::Paused);
                lemma_filter_insert_len(before.to_set(), k, |k: u128| m[k].state == JobState::Completed);
                lemma_filter_insert_len(before.to_set(), k, |k: u128| m[k].state == JobState::Failed);
                lemma_filter_insert_len(before.to_set(), k, |k: u128| m[k].state == JobState::Cancelled);
            }
            match st {
                JobState::Pending => { c0 = c0 + 1; },
                JobState::Running => { c1 = c1 + 1; },
                JobState::Paused => { c2 = c2 + 1; },
                JobState::Completed => { c3 = c3 + 1; },
                JobState::Failed => { c4 = c4 + 1; },
                JobState::Cancelled => { c5 = c5 + 1; },
            }
            i = i + 1;
        }
        proof {
            assert(keys@.take(keys@.len() as int) =~= keys@);
            reveal_with_fuel(state_counts, 7);
        }
        let mut by_state: Vec<(JobState, usize)> = Vec::new();
        if c0 > 0 {
            by_state.push((JobState::Pending, c0));
        }
        if c1 > 0 {
            by_state.push((JobState::Running, c1));
        }
        if c2 > 0 {
            by_state.push((JobState::Paused, c2));
        }
        if c3 > 0 {
            by_state.push((JobState::Completed, c3));
        }
        if c4 > 0 {
            by_state.push((JobState::Failed, c4));
        }
        if c5 > 0 {
            by_state.push((JobState::Cancelled, c5));
        }
        proof {
            let o = state_order();
            assert(o.drop_first() =~= seq![JobState::Running, JobState::Paused, JobState::Completed, JobState::Failed, JobState::Cancelled]);
            assert(o.drop_first().drop_first() =~= seq![JobState::Paused, JobState::Completed, JobState::Failed, JobState::Cancelled]);
            assert(o.drop_first().drop_first().drop_first() =~= seq![JobState::Completed, JobState::Failed, JobState::Cancelled]);
            assert(o.drop_first().drop_first().drop_first().drop_first() =~= seq![JobState::Failed, JobState::Cancelled]);
            assert(o.drop_first().drop_first().drop_first().drop_first().drop_first() =~= seq![JobState::Cancelled]);
            assert(o.drop_first().drop_first().drop_first().drop_first().drop_first().drop_first() =~= Seq::<JobState>::empty());
            assert(by_state@ =~= state_counts(m, o));
        }
        JobStats {
            total: self.jobs.len(),
            pending: self.pending_queue.len(),
            running: self.running_queue.len(),
            by_state,
        }
    }

    /// Takes the job at the front of the pending queue and starts it at time
    /// `now`, if the running queue has room; see `process_next_effect`.
    pub fn process_next_at(&mut self, now: i64) -> (r: Result<Option<JobId>, JobError>)
        requires
            old(self).wf(),
        ensures
            final(self).wf(),
            process_next_effect(*old(self), *final(self), r, now),
    {
        if self.running_queue.len() >= self.max_concurrent {
            return Ok(None);
        }
        if self.pending_queue.len() == 0 {
            return Ok(None);
        }
        let id = self.pending_queue[0];
        let ghost pre = *self;
        proof {
            lemma_first_index(pre.pending_queue@, id, 0);
            assert(pre.jobs@.contains_key(pre.pending_queue@[0].value));
        }
        match self.start_job_at(&id, now) {
            Ok(()) => {
                proof {
                    assert(without(pre.pending_queue@, id) =~= pre.pending_queue@.drop_first());
                }
                Ok(Some(id))
            },
            Err(e) => {
                self.pending_queue.pop_front();
                proof {
                    assert(self.pending_queue@ =~= pre.pending_queue@.drop_first());
                    assert forall|i: int|
                        0 <= i < self.pending_queue@.len() implies self.jobs@.contains_key(
                        #[trigger] self.pending_queue@[i].value,
                    ) by {
                        assert(self.pending_queue@[i] == pre.pending_queue@[i + 1]);
                    }
                    assert forall|k2: u128| #[trigger]
                        self.jobs@.contains_key(k2) && self.jobs@[k2].state == JobState::Pending
                            implies self.pending_queue@.contains(JobId { value: k2 }) by {
                        let j = choose|j: int|
                            0 <= j < pre.pending_queue@.len() && pre.pending_queue@[j] == JobId {
                                value: k2,
                            };
                        assert(j != 0);
                        assert(self.pending_queue@[j - 1] == JobId { value: k2 });
                    }
                }
                Err(e)
            },
        }
    }

    /// Starts jobs from the front of the pending queue at time `now` while
    /// the running queue has room; see `process_all_effect`.
    pub fn process_all_at(&mut self, now: i64) -> (r: Result<Vec<JobId>, JobError>)
        requires
            old(self).wf(),
        ensures
            final(self).wf(),
            process_all_effect(
                *old(self),
                *final(self),
                ids_result(r),
                now,
            ),
    {
        let ghost pre = *self;
        let mut started: Vec<JobId> = Vec::new();
        proof {
            assert(pre.pending_queue@.take(0) =~= Seq::<JobId>::empty());
            assert(pre.running_queue@ + Seq::<JobId>::empty() =~= pre.running_queue@);
            assert(pre.pending_queue@.skip(0) =~= pre.pending_queue@);
            assert(contexts_added(pre.contexts@, pre.contexts@, Seq::<JobId>::empty(), pre.jobs@));
        }
        while self.max_concurrent > 0
            invariant
                self.wf(),
                pre.wf(),
                pre == *old(self),
                0 <= started@.len() <= batch_len(pre),
                started@ == pre.pending().take(started@.len() as int),
                pending_prefix(pre, started@.len() as int),
                started_prefix(pre, *self, started@.len() as int, 0, now),
            decreases batch_len(pre) - started@.len(),
        {
            let ghost cur = *self;
            let ghost k = started@.len() as int;
            let step = self.process_next_at(now);
            match step {
                Ok(Some(id)) => {
                    proof {
                        assert(k < batch_len(pre));
                        assert(cur.pending_queue@ == pre.pending_queue@.skip(k));
                        assert(id == pre.pending_queue@[k]);
                        let ids = pre.pending_queue@.take(k);
                        let ids2 = pre.pending_queue@.take(k + 1);
                        assert(ids2.drop_last() =~= ids);
                        assert(ids2 =~= ids.push(id));
                        assert(!ids.contains(id)) by {
                            if ids.contains(id) {
                                let c = choose|c: int| 0 <= c < ids.len() && ids[c] == id;
                                assert(pre.pending_queue@[c] == pre.pending_queue@[k]);
                            }
                        }
                        lemma_start_all(pre.jobs@, ids, now, id.value);
                        assert(cur.jobs@[id.value] == pre.jobs@[id.value]);
                        assert(self.jobs@ =~= start_all(pre.jobs@, ids2, now));
                        assert(self.running_queue@ =~= pre.running_queue@ + ids2);
                        lemma_first_index(cur.pending_queue@, id, 0);
                        assert(self.pending_queue@ =~= pre.pending_queue@.skip(k + 1));
                        assert(pre.pending_queue@[k].value == id.value);
                        assert(pre.jobs@[pre.pending_queue@[k].value].state == JobState::Pending);
                        let one = seq![id];
                        assert(one[0] == id);
                        assert forall|x: u128| #[trigger]
                            self.contexts@.contains_key(x) <==> (pre.contexts@.contains_key(x)
                                || ids2.contains(JobId { value: x })) by {
                            if ids2.contains(JobId { value: x }) && x != id.value {
                                let c = choose|c: int| 0 <= c < ids2.len() && ids2[c] == JobId { value: x };
                                assert(ids[c] == JobId { value: x });
                            }
                            if one.contains(JobId { value: x }) {
                                let c = choose|c: int| 0 <= c < one.len() && one[c] == JobId { value: x };
                                assert(x == id.value);
                            }
                            if x == id.value {
                                assert(one.contains(JobId { value: x }));
                                assert(ids2[k] == id);
                            }
                            if ids.contains(JobId { value: x }) {
                                let c = choose|c: int| 0 <= c < ids.len() && ids[c] == JobId { value: x };
                                assert(ids2[c] == JobId { value: x });
                            }
                        }
                        assert forall|i: int|
                            0 <= i < ids2.len() implies is_initial_context(
                            #[trigger] self.contexts@[ids2[i].value],
                            pre.jobs@[ids2[i].value],
                        ) by {
                            if i < k {
                                let y = ids[i];
                                assert(ids2[i] == y);
                                assert(y != id);
                                assert(JobId { value: y.value } == y);
                                assert(ids.contains(y));
                                assert(!one.contains(y)) by {
                                    if one.contains(y) {
                                        let c = choose|c: int| 0 <= c < one.len() && one[c] == y;
                                    }
                                }
                                assert(is_initial_context(cur.contexts@[ids[i].value], pre.jobs@[ids[i].value]));
                                assert(cur.contexts@.contains_key(y.value));
                                assert(self.contexts@[y.value] == cur.contexts@[y.value]);
                            } else {
                                assert(ids2[i] == id);
                                assert(is_initial_context(self.contexts@[one[0].value], cur.jobs@[one[0].value]));
                            }
                        }
                        assert forall|x: u128|
                            #[trigger] pre.contexts@.contains_key(x) && !ids2.contains(JobId { value: x })
                                implies self.contexts@[x] == pre.contexts@[x] by {
                            assert(x != id.value) by {
                                if x == id.value {
                                    assert(ids2[k] == id);
                                    assert(JobId { value: x } == id);
                                    assert(ids2.contains(JobId { value: x }));
                                }
                            }
                            assert(cur.contexts@.contains_key(x));
                            assert(cur.contexts@[x] == pre.contexts@[x]);
                            assert(!one.contains(JobId { value: x })) by {
                                if one.contains(JobId { value: x }) {
                                    let c = choose|c: int| 0 <= c < one.len() && one[c] == JobId { value: x };
                                }
                            }
                            assert(self.contexts@[x] == cur.contexts@[x]);
                            assert(!ids.contains(JobId { value: x })) by {
                                if ids.contains(JobId { value: x }) {
                                    let c = choose|c: int| 0 <= c < ids.len() && ids[c] == JobId { value: x };
                                    assert(ids2[c] == JobId { value: x });
                                }
                            }
                            assert(!one.contains(JobId { value: x })) by {
                                if one.contains(JobId { value: x }) {
                                    let c = choose|c: int| 0 <= c < one.len() && one[c] == JobId { value: x };
                                }
                            }
                        }
                    }
                    started.push(id);
                    proof {
                        assert(started@ =~= pre.pending_queue@.take(k + 1));
                    }
                },
                Ok(None) => {
                    proof {
                        assert(k == batch_len(pre));
                        assert(JobManager::unchanged(cur, *self));
                        assert(pending_prefix(pre, batch_len(pre)));
                        assert(started_prefix(pre, *self, batch_len(pre), 0, now));
                        let rr = Ok::<Seq<JobId>, JobError>(started@);
                        assert(rr == Ok::<Seq<JobId>, JobError>(pre.pending().take(batch_len(pre))));
                    }
                    return Ok(started);
                },
                Err(e) => {
                    proof {
                        assert(k < batch_len(pre));
                        assert(cur.pending_queue@ == pre.pending_queue@.skip(k));
                        let id = pre.pending_queue@[k];
                        assert(cur.pending_queue@[0] == id);
                        let ids = pre.pending_queue@.take(k);
                        assert(!ids.contains(id)) by {
                            if ids.contains(id) {
                                let c = choose|c: int| 0 <= c < ids.len() && ids[c] == id;
                                assert(pre.pending_queue@[c] == pre.pending_queue@[k]);
                            }
                        }
                        lemma_start_all(pre.jobs@, ids, now, id.value);
                        assert(!pending_prefix(pre, batch_len(pre)));
                        let j = choose|j: int|
                            0 <= j < batch_len(pre) && pre.jobs()[pre.pending()[j].value].state
                                != JobState::Pending && pending_prefix(pre, j);
                        assert(j == k) by {
                            if j < k {
                                assert(pre.jobs()[pre.pending()[j].value].state == JobState::Pending);
                            }
                            if j > k {
                                assert(pre.jobs()[pre.pending()[k].value].state == JobState::Pending);
                            }
                        }
                        assert(self.pending_queue@ =~= pre.pending_queue@.skip(k + 1));
                    }
                    return Err(e);
                },
            }
        }
        proof {
            assert(batch_len(pre) == 0);
        }
        Ok(started)
    }

    /// Fails, at time `now`, every job of the running queue that has run
    /// past its timeout; see `timeout_effect`.
    pub fn check_timeouts_at(&mut self, now: i64)
        requires
            old(self).wf(),
        ensures
            final(self).wf(),
            timeout_effect(*old(self), *final(self), now),
    {
        let ghost pre = *self;
        let ghost keep = |id: JobId| !timed_out(pre.jobs@[id.value], now);
        let mut kept: VecDeque<JobId> = VecDeque::new();
        let n = self.running_queue.len();
        let mut i: usize = 0;
        proof {
            assert(pre.running_queue@.take(0) =~= Seq::<JobId>::empty());
            reveal(Seq::filter);
        }
        while i < n
            invariant
                pre.wf(),
                n == pre.running_queue@.len(),
                i <= n,
                self.running_queue@ == pre.running_queue@,
                self.pending_queue@ == pre.pending_queue@,
                self.max_concurrent == pre.max_concurrent,
                self.checkpoint_interval == pre.checkpoint_interval,
                self.last_checkpoint == pre.last_checkpoint,
                keep == (|id: JobId| !timed_out(pre.jobs@[id.value], now)),
                kept@ == pre.running_queue@.take(i as int).filter(keep),
                self.jobs@.dom() == pre.jobs@.dom(),
                forall|k: u128| #[trigger]
                    pre.jobs@.contains_key(k) ==> if pre.running_queue@.take(i as int).contains(
                        JobId { value: k },
                    ) && timed_out(pre.jobs@[k], now) {
                        &&& self.jobs@[k] == timed_out_job(pre.jobs@[k], self.jobs@[k].error, now)
                        &&& self.jobs@[k].error is Some
                        &&& self.jobs@[k].error->0@ == timeout_text()
                    } else {
                        self.jobs@[k] == pre.jobs@[k]
                    },
                forall|k: u128| #[trigger]
                    self.contexts@.contains_key(k) == (pre.contexts@.contains_key(k) && !(
                    pre.running_queue@.take(i as int).contains(JobId { value: k }) && timed_out(
                        pre.jobs@[k],
                        now,
                    ))),
                forall|k: u128| #[trigger]
                    self.contexts@.contains_key(k) ==> self.contexts@[k] == pre.contexts@[k],
            decreases n - i,
        {
            let id = self.running_queue[i];
            let k = id.value;
            proof {
                assert(pre.jobs@.contains_key(pre.running_queue@[i as int].value));
                assert(!pre.running_queue@.take(i as int).contains(id)) by {
                    if pre.running_queue@.take(i as int).contains(id) {
                        let c = choose|c: int|
                            0 <= c < i && pre.running_queue@[c] == id;
                        assert(pre.running_queue@[c] == pre.running_queue@[i as int]);
                    }
                }
                assert(JobId { value: k } == id);
                assert(pre.running_queue@.take(i + 1) =~= pre.running_queue@.take(i as int).push(id));
                pre.running_queue@.take(i as int).lemma_filter_push(id, keep);
                assert forall|x: JobId|
                    pre.running_queue@.take(i + 1).contains(x) <==> (pre.running_queue@.take(
                        i as int,
                    ).contains(x) || x == id) by {
                    if pre.running_queue@.take(i + 1).contains(x) {
                        let c = choose|c: int| 0 <= c < i + 1 && pre.running_queue@[c] == x;
                        if c < i {
                            assert(pre.running_queue@.take(i as int)[c] == x);
                        }
                    }
                    if pre.running_queue@.take(i as int).contains(x) {
                        let c = choose|c: int| 0 <= c < i && pre.running_queue@[c] == x;
                        assert(pre.running_queue@.take(i + 1)[c] == x);
                    }
                    if x == id {
                        assert(pre.running_queue@.take(i + 1)[i as int] == x);
                    }
                }
            }
            let expired = {
                let j = self.jobs.get(&k).unwrap();
                match (j.timeout, j.started_at) {
                    (Some(t), Some(st)) => now as i128 - st as i128 > t as i128,
                    _ => false,
                }
            };
            if expired {
                let mut job = self.jobs.remove(&k).unwrap();
                let _ = job.fail_at(String::from_str("Job timeout"), now);
                let ghost failed = job;
                self.jobs.insert(k, job);
                self.contexts.remove(&k);
                proof {
                    assert forall|k2: u128| #[trigger]
                        pre.jobs@.contains_key(k2) implies if pre.running_queue@.take(i + 1).contains(
                            JobId { value: k2 },
                        ) && timed_out(pre.jobs@[k2], now) {
                            &&& self.jobs@[k2] == timed_out_job(pre.jobs@[k2], self.jobs@[k2].error, now)
                            &&& self.jobs@[k2].error is Some
                            &&& self.jobs@[k2].error->0@ == timeout_text()
                        } else {
                            self.jobs@[k2] == pre.jobs@[k2]
                        } by {
                        if k2 != k {
                            assert(JobId { value: k2 } != id);
                        }
                    }
                    assert(self.jobs@.dom() =~= pre.jobs@.dom());
                }
            } else {
                kept.push_back(id);
            }
            i = i + 1;
        }
        proof {
            assert(pre.running_queue@.take(n as int) =~= pre.running_queue@);
        }
        let ghost before_swap = *self;
        self.running_queue = kept;
        proof {
            let post = *self;
            let r = post.running_queue@;
            let p = pre.running_queue@;
            broadcast use vstd::seq_lib::group_filter_ensures;
            assert forall|a: int| 0 <= a < r.len() implies p.contains(#[trigger] r[a]) && keep(r[a]) by {
                assert(r.contains(r[a]));
                p.lemma_filter_contains_rev(keep, r[a]);
            }
            lemma_filter_no_dups(p, keep);
            assert forall|a: int|
                0 <= a < r.len() implies {
                    &&& post.jobs@.contains_key(#[trigger] r[a].value)
                    &&& (post.jobs@[r[a].value].state == JobState::Running
                        || post.jobs@[r[a].value].state == JobState::Paused)
                } by {
                let x = r[a];
                assert(p.contains(x));
                let c = choose|c: int| 0 <= c < p.len() && p[c] == x;
                assert(pre.jobs@.contains_key(p[c].value));
                assert(JobId { value: x.value } == x);
            }
            assert(r.len() <= p.len());
            assert forall|k2: u128| #[trigger]
                post.jobs@.contains_key(k2) && post.jobs@[k2].state == JobState::Pending
                    implies post.pending_queue@.contains(JobId { value: k2 }) by {
                assert(pre.jobs@.contains_key(k2));
            }
            assert forall|k2: u128| #[trigger]
                post.contexts@.contains_key(k2) implies post.running_queue@.contains(
                JobId { value: k2 },
            ) && post.contexts@[k2].job_id.value == k2 by {
                assert(pre.contexts@.contains_key(k2));
                assert(p.contains(JobId { value: k2 }));
                let c = choose|c: int| 0 <= c < p.len() && p[c] == JobId { value: k2 };
                assert(keep(p[c]));
                p.lemma_filter_contains(keep, c);
            }
            assert forall|i2: int|
                0 <= i2 < post.pending_queue@.len() implies post.jobs@.contains_key(
                #[trigger] post.pending_queue@[i2].value,
            ) by {
                assert(pre.jobs@.contains_key(pre.pending_queue@[i2].value));
            }
        }
    }

    /// Loads one job; see `load_one`.
    fn load_job(&mut self, job: Job)
        requires
            old(self).wf(),
        ensures
            final(self).wf(),
            loaded(*final(self)) == load_one(loaded(*old(self)), old(self).max_concurrent() as nat, job),
            same_settings(*old(self), *final(self)),
    {
        let ghost prev = *self;
        let id = job.id;
        let st = job.state;
        proof {
            lemma_without(prev.pending_queue@, id);
            lemma_without(prev.running_queue@, id);
        }
        remove_first(&mut self.pending_queue, id);
        remove_first(&mut self.running_queue, id);
        let ghost p = self.pending_queue@;
        let ghost r = self.running_queue@;
        self.jobs.insert(id.value, job);
        if st == JobState::Pending {
            self.pending_queue.push_back(id);
            self.contexts.remove(&id.value);
        } else if (st == JobState::Running || st == JobState::Paused) && self.running_queue.len()
            < self.max_concurrent {
            self.running_queue.push_back(id);
        } else {
            self.contexts.remove(&id.value);
        }
        proof {
            assert(loaded(*self) =~= load_one(loaded(prev), prev.max_concurrent as nat, job));
            let pq = self.pending_queue@;
            let rq = self.running_queue@;
            assert(pq == p || pq == p.push(id));
            assert(rq == r || rq == r.push(id));
            assert forall|x: JobId| #[trigger] pq.contains(x) && x != id implies p.contains(x) by {
                if pq != p {
                    let c = choose|c: int| 0 <= c < pq.len() && pq[c] == x;
                    assert(c < p.len());
                }
            }
            assert forall|x: JobId| #[trigger] rq.contains(x) && x != id implies r.contains(x) by {
                if rq != r {
                    let c = choose|c: int| 0 <= c < rq.len() && rq[c] == x;
                    assert(c < r.len());
                }
            }
            assert(pq.no_duplicates()) by {
                if pq != p {
                    assert forall|a: int, b: int| 0 <= a < b < pq.len() implies pq[a] != pq[b] by {
                        if b == p.len() {
                            assert(p.contains(pq[a]));
                        }
                    }
                }
            }
            assert(rq.no_duplicates()) by {
                if rq != r {
                    assert forall|a: int, b: int| 0 <= a < b < rq.len() implies rq[a] != rq[b] by {
                        if b == r.len() {
                            assert(r.contains(rq[a]));
                        }
                    }
                }
            }
            assert forall|i2: int|
                0 <= i2 < pq.len() implies self.jobs@.contains_key(#[trigger] pq[i2].value) by {
                let x = pq[i2];
                assert(pq.contains(x));
                if x != id {
                    assert(p.contains(x));
                    assert(prev.pending_queue@.contains(x));
                    let c = choose|c: int| 0 <= c < prev.pending_queue@.len() && prev.pending_queue@[c] == x;
                    assert(prev.jobs@.contains_key(prev.pending_queue@[c].value));
                }
            }
            assert forall|i2: int|
                0 <= i2 < rq.len() implies {
                    &&& self.jobs@.contains_key(#[trigger] rq[i2].value)
                    &&& (self.jobs@[rq[i2].value].state == JobState::Running
                        || self.jobs@[rq[i2].value].state == JobState::Paused)
                } by {
                let x = rq[i2];
                assert(rq.contains(x));
                if x != id {
                    assert(r.contains(x));
                    assert(prev.running_queue@.contains(x));
                    let c = choose|c: int| 0 <= c < prev.running_queue@.len() && prev.running_queue@[c] == x;
                    assert(prev.jobs@.contains_key(prev.running_queue@[c].value));
                    assert(x.value != id.value);
                } else {
                    assert(rq != r);
                }
            }
            assert forall|k2: u128| #[trigger]
                self.jobs@.contains_key(k2) && self.jobs@[k2].state == JobState::Pending
                    implies pq.contains(JobId { value: k2 }) by {
                if k2 == id.value {
                    assert(JobId { value: k2 } == id);
                    assert(pq[pq.len() - 1] == id);
                } else {
                    assert(prev.pending_queue@.contains(JobId { value: k2 }));
                    assert(p.contains(JobId { value: k2 }));
                    let c = choose|c: int| 0 <= c < p.len() && p[c] == JobId { value: k2 };
                    assert(pq[c] == JobId { value: k2 });
                }
            }
            assert forall|k2: u128| #[trigger]
                self.contexts@.contains_key(k2) implies rq.contains(JobId { value: k2 })
                    && self.contexts@[k2].job_id.value == k2 by {
                assert(prev.contexts@.contains_key(k2));
                if k2 == id.value {
                    assert(rq != r);
                    assert(JobId { value: k2 } == id);
                    assert(rq[rq.len() - 1] == id);
                } else {
                    assert(prev.running_queue@.contains(JobId { value: k2 }));
                    assert(r.contains(JobId { value: k2 }));
                    let c = choose|c: int| 0 <= c < r.len() && r[c] == JobId { value: k2 };
                    assert(rq[c] == JobId { value: k2 });
                }
            }
        }
    }

    /// Loads jobs, as read from a repository, in order; see `load_one`.
    /// Every job is stored: the last one with each identifier is the one
    /// kept, and each joins the queue that its state calls for; a running
    /// or paused job for which the running queue has no room is stored
    /// outside the queues.
    pub fn load_all(&mut self, jobs: Vec<Job>)
        requires
            old(self).wf(),
        ensures
            final(self).wf(),
            loaded(*final(self)) == load_each(loaded(*old(self)), old(self).max_concurrent() as nat, jobs@),
            forall|k: u128| #[trigger]
                final(self).jobs().contains_key(k) <==> (old(self).jobs().contains_key(k) || loads_id(
                    jobs@,
                    k,
                )),
            forall|i: int|
                0 <= i < jobs@.len() && last_with_id(jobs@, i) ==> final(self).jobs()[#[trigger] jobs@[i].id.value]
                    == jobs@[i],
            forall|k: u128|
                old(self).jobs().contains_key(k) && !loads_id(jobs@, k) ==> #[trigger] final(self).jobs()[k]
                    == old(self).jobs()[k],
            same_settings(*old(self), *final(self)),
    {
        let ghost pre = *self;
        let ghost s = jobs@;
        let ghost max = pre.max_concurrent as nat;
        let mut rest = jobs;
        let total = rest.len();
        let mut i: usize = 0;
        proof {
            assert(s.take(0) =~= Seq::<Job>::empty());
            assert(rest@ =~= s.skip(0));
        }
        while rest.len() > 0
            invariant
                self.wf(),
                max == pre.max_concurrent as nat,
                i <= s.len(),
                s.len() == total,
                rest@ == s.skip(i as int),
                loaded(*self) == load_each(loaded(pre), max, s.take(i as int)),
                same_settings(pre, *self),
            decreases rest@.len(),
        {
            let job = rest.remove(0);
            proof {
                assert(job == s[i as int]);
                assert(s.take(i + 1).drop_last() =~= s.take(i as int));
                assert(s.take(i + 1).last() == job);
            }
            self.load_job(job);
            i = i + 1;
            proof {
                assert(rest@ =~= s.skip(i as int));
            }
        }
        proof {
            assert(s.take(i as int) =~= s);
            lemma_load_each_jobs(loaded(pre), max, s);
        }
    }

    /// Creates a pending job with a fresh identifier from the given parts
    /// and adds it; see `add_job`. The identifier is random; should it
    /// already be known, the job is refused with `AlreadyExists`.
    pub fn create_job(
        &mut self,
        project_id: ProjectId,
        operation_id: OperationId,
        actor_id: ActorId,
        name: String,
        payload: JobPayload,
    ) -> (r: Result<JobId, JobError>)
        requires
            old(self).wf(),
        ensures
            final(self).wf(),
            r is Ok ==> {
                let id = r->Ok_0;
                let j = final(self).jobs()[id.value];
                &&& !old(self).jobs().contains_key(id.value)
                &&& final(self).jobs() == old(self).jobs().insert(id.value, j)
                &&& j.id == id
                &&& j.project_id == project_id
                &&& j.operation_id == operation_id
                &&& j.actor_id == actor_id
                &&& j.name == name
                &&& j.payload == payload
                &&& j.state == JobState::Pending
                &&& j.priority == 50
                &&& j.max_retries == 3
                &&& j.started_at is None
                &&& j.metadata.view().is_empty()
                &&& final(self).pending() == old(self).pending().push(id)
                &&& final(self).running() == old(self).running()
                &&& final(self).contexts() == old(self).contexts()
                &&& same_settings(*old(self), *final(self))
            },
            r is Err ==> JobManager::unchanged(*old(self), *final(self)) && r->Err_0 is AlreadyExists,
            r is Err ==> exists|k: u128|
                #[trigger] old(self).jobs().contains_key(k) && r->Err_0->AlreadyExists_0@ == uuid_text(k),
    {
        let now = unix_millis_now();
        let id = JobId::new();
        let built = JobBuilder::new().id(id).project_id(project_id).operation_id(operation_id).actor_id(
            actor_id,
        ).name(name).payload(payload).build_at(now);
        let job = match built {
            Ok(j) => j,
            Err(e) => {
                return Err(e);
            },
        };
        let ghost jid = job.id.value;
        let r = self.add_job(job);
        proof {
            if r is Err {
                assert(old(self).jobs().contains_key(jid));
            }
        }
        r
    }

    /// Whether a checkpoint is due at time `now`: the checkpoint interval has
    /// passed since the last one (no time has passed if `now` is earlier).
    pub fn checkpoint_due_at(&self, now: i64) -> (r: bool)
        ensures
            r == ((if now >= self.last_checkpoint() {
                now as int - self.last_checkpoint() as int
            } else {
                0int
            }) >= self.checkpoint_interval() as int),
    {
        let elapsed: i128 = if now >= self.last_checkpoint {
            now as i128 - self.last_checkpoint as i128
        } else {
            0
        };
        elapsed >= self.checkpoint_interval as i128
    }

    /// Records that a checkpoint was taken at time `now`.
    pub fn mark_checkpoint_at(&mut self, now: i64)
        requires
            old(self).wf(),
        ensures
            final(self).wf(),
            final(self).last_checkpoint() == now,
            final(self).jobs() == old(self).jobs(),
            final(self).contexts() == old(self).contexts(),
            final(self).pending() == old(self).pending(),
            final(self).running() == old(self).running(),
            final(self).max_concurrent() == old(self).max_concurrent(),
            final(self).checkpoint_interval() == old(self).checkpoint_interval(),
    {
        self.last_checkpoint = now;
    }

    /// Reacts to a job event at time `now`: after a job was added,
    /// completed or cancelled it tries to start the next pending job and
    /// returns what that gave; other events change nothing.
    pub fn handle_event_at(&mut self, kind: JobEventKind, now: i64) -> (r: Option<Result<Option<JobId>, JobError>>)
        requires
            old(self).wf(),
        ensures
            final(self).wf(),
            starts_next(kind) ==> r is Some && process_next_effect(*old(self), *final(self), r->0, now),
            !starts_next(kind) ==> r is None && JobManager::unchanged(*old(self), *final(self)),
    {
        match kind {
            JobEventKind::Added | JobEventKind::Completed | JobEventKind::Cancelled => {
                Some(self.process_next_at(now))
            },
            _ => None,
        }
    }

    /// Starts a pending job now; see `start_job_at`.
    pub fn start_job(&mut self, job_id: &JobId) -> (r: Result<(), JobError>)
        requires
            old(self).wf(),
        ensures
            final(self).wf(),
            r is Ok <==> start_allowed(*old(self), *job_id),
            r is Ok ==> exists|t: i64| #[trigger] start_effect(*old(self), *final(self), *job_id, t),
            r is Err ==> JobManager::unchanged(*old(self), *final(self)) && start_refusal(
                *old(self),
                *job_id,
                r->Err_0,
            ),
    {
        let now = unix_millis_now();
        self.start_job_at(job_id, now)
    }

    /// Completes a running job now; see `complete_job_at`.
    pub fn complete_job(&mut self, job_id: &JobId, results: Vec<JobResult>) -> (r: Result<(), JobError>)
        requires
            old(self).wf(),
        ensures
            final(self).wf(),
            r is Ok <==> (old(self).jobs().contains_key(job_id.value) && old(self).jobs()[job_id.value].state
                == JobState::Running),
            r is Ok ==> exists|t: i64|
                #[trigger] end_effect(
                    *old(self),
                    *final(self),
                    *job_id,
                    completed_job(old(self).jobs()[job_id.value], results, t),
                    false,
                ),
            r is Err ==> JobManager::unchanged(*old(self), *final(self)) && transition_refusal(
                *old(self),
                *job_id,
                r->Err_0,
                "Cannot complete job in state: "@,
            ),
    {
        let now = unix_millis_now();
        let ghost pre = *self;
        let ghost res = results;
        let r = self.complete_job_at(job_id, results, now);
        proof {
            if r is Ok {
                assert(end_effect(pre, *self, *job_id, completed_job(pre.jobs()[job_id.value], res, now), false));
            }
        }
        r
    }

    /// Fails a job now; see `fail_job_at`.
    pub fn fail_job(&mut self, job_id: &JobId, error: String) -> (r: Result<(), JobError>)
        requires
            old(self).wf(),
        ensures
            final(self).wf(),
            r is Ok <==> (old(self).jobs().contains_key(job_id.value) && old(self).jobs()[job_id.value].state
                != JobState::Completed && old(self).jobs()[job_id.value].state != JobState::Failed),
            r is Ok ==> exists|t: i64|
                #[trigger] end_effect(
                    *old(self),
                    *final(self),
                    *job_id,
                    failed_job(old(self).jobs()[job_id.value], error, t),
                    true,
                ),
            r is Err ==> JobManager::unchanged(*old(self), *final(self)) && transition_refusal(
                *old(self),
                *job_id,
                r->Err_0,
                "Cannot fail job in state: "@,
            ),
    {
        let now = unix_millis_now();
        let ghost pre = *self;
        let ghost err = error;
        let r = self.fail_job_at(job_id, error, now);
        proof {
            if r is Ok {
                assert(end_effect(pre, *self, *job_id, failed_job(pre.jobs()[job_id.value], err, now), true));
            }
        }
        r
    }

    /// Cancels a job now; see `cancel_job_at`.
    pub fn cancel_job(&mut self, job_id: &JobId) -> (r: Result<(), JobError>)
        requires
            old(self).wf(),
        ensures
            final(self).wf(),
            r is Ok <==> (old(self).jobs().contains_key(job_id.value) && old(self).jobs()[job_id.value].state
                != JobState::Completed && old(self).jobs()[job_id.value].state != JobState::Failed),
            r is Ok ==> exists|t: i64|
                #[trigger] end_effect(
                    *old(self),
                    *final(self),
                    *job_id,
                    cancelled_job(old(self).jobs()[job_id.value], t),
                    true,
                ),
            r is Err ==> JobManager::unchanged(*old(self), *final(self)) && transition_refusal(
                *old(self),
                *job_id,
                r->Err_0,
                "Cannot cancel job in state: "@,
            ),
    {
        let now = unix_millis_now();
        let ghost pre = *self;
        let r = self.cancel_job_at(job_id, now);
        proof {
            if r is Ok {
                assert(end_effect(pre, *self, *job_id, cancelled_job(pre.jobs()[job_id.value], now), true));
            }
        }
        r
    }

    /// Pauses a running job now; see `pause_job_at`.
    pub fn pause_job(&mut self, job_id: &JobId) -> (r: Result<(), JobError>)
        requires
            old(self).wf(),
        ensures
            final(self).wf(),
            r is Ok <==> (old(self).jobs().contains_key(job_id.value) && old(self).jobs()[job_id.value].state
                == JobState::Running),
            r is Ok ==> exists|t: i64|
                #[trigger] update_effect(
                    *old(self),
                    *final(self),
                    *job_id,
                    paused_job(old(self).jobs()[job_id.value], t),
                ),
            r is Err ==> JobManager::unchanged(*old(self), *final(self)) && transition_refusal(
                *old(self),
                *job_id,
                r->Err_0,
                "Cannot pause job in state: "@,
            ),
    {
        let now = unix_millis_now();
        let ghost pre = *self;
        let r = self.pause_job_at(job_id, now);
        proof {
            if r is Ok {
                assert(update_effect(pre, *self, *job_id, paused_job(pre.jobs()[job_id.value], now)));
            }
        }
        r
    }

    /// Resumes a paused job now; see `resume_job_at`.
    pub fn resume_job(&mut self, job_id: &JobId) -> (r: Result<(), JobError>)
        requires
            old(self).wf(),
        ensures
            final(self).wf(),
            r is Ok <==> (old(self).jobs().contains_key(job_id.value) && old(self).jobs()[job_id.value].state
                == JobState::Paused),
            r is Ok ==> exists|t: i64|
                #[trigger] update_effect(
                    *old(self),
                    *final(self),
                    *job_id,
                    resumed_job(old(self).jobs()[job_id.value], t),
                ),
            r is Err ==> JobManager::unchanged(*old(self), *final(self)) && transition_refusal(
                *old(self),
                *job_id,
                r->Err_0,
                "Cannot resume job in state: "@,
            ),
    {
        let now = unix_millis_now();
        let ghost pre = *self;
        let r = self.resume_job_at(job_id, now);
        proof {
            if r is Ok {
                assert(update_effect(pre, *self, *job_id, resumed_job(pre.jobs()[job_id.value], now)));
            }
        }
        r
    }

    /// Starts the next pending job now, if the running queue has room; see
    /// `process_next_at`.
    pub fn process_next(&mut self) -> (r: Result<Option<JobId>, JobError>)
        requires
            old(self).wf(),
        ensures
            final(self).wf(),
            exists|t: i64| #[trigger] process_next_effect(*old(self), *final(self), r, t),
    {
        let now = unix_millis_now();
        self.process_next_at(now)
    }

    /// Starts pending jobs now while the running queue has room; see
    /// `process_all_at`.
    pub fn process_all(&mut self) -> (r: Result<Vec<JobId>, JobError>)
        requires
            old(self).wf(),
        ensures
            final(self).wf(),
            exists|t: i64|
                #[trigger] process_all_effect(
                    *old(self),
                    *final(self),
                    ids_result(r),
                    t,
                ),
    {
        let now = unix_millis_now();
        self.process_all_at(now)
    }

    /// Fails the running jobs that have run past their timeout, as seen now;
    /// see `check_timeouts_at`.
    pub fn check_timeouts(&mut self)
        requires
            old(self).wf(),
        ensures
            final(self).wf(),
            exists|t: i64| #[trigger] timeout_effect(*old(self), *final(self), t),
    {
        let now = unix_millis_now();
        self.check_timeouts_at(now)
    }

    /// Whether a checkpoint is due now; see `checkpoint_due_at`. The result
    /// is what `checkpoint_due_at` gives at the time the clock reads.
    pub fn checkpoint_due(&self) -> (r: bool)
        ensures
            self.checkpoint_interval() == 0 ==> r,
            exists|t: i64| r == #[trigger] checkpoint_due_by(self.last_checkpoint(), self.checkpoint_interval(), t),
    {
        let now = unix_millis_now();
        let r = self.checkpoint_due_at(now);
        assert(r == checkpoint_due_by(self.last_checkpoint(), self.checkpoint_interval(), now));
        r
    }
}

proof fn lemma_without_absent_push(q: Seq<JobId>, id: JobId)
    requires
        !q.contains(id),
    ensures
        without(q.push(id), id) == q,
        without(q, id) == q,
{
    let p = q.push(id);
    assert(p[q.len() as int] == id);
    assert forall|j: int| 0 <= j < q.len() implies p[j] != id by {
        assert(p[j] == q[j]);
    }
    lemma_first_index(p, id, q.len() as int);
    assert(p.contains(id));
    assert(p.remove(q.len() as int) =~= q);
}

/// What every operation of the manager keeps: each queued identifier is a
/// known job and is queued once; the running queue holds only running or
/// paused jobs and never more than the manager runs at once; each pending
/// job waits in the pending queue; and only jobs in the running queue have
/// a context.
pub proof fn manager_invariant(m: JobManager)
    requires
        m.wf(),
    ensures
        m.running().len() <= m.max_concurrent(),
        m.pending().no_duplicates(),
        m.running().no_duplicates(),
        forall|i: int| 0 <= i < m.pending().len() ==> m.jobs().contains_key(#[trigger] m.pending()[i].value),
        forall|i: int|
            0 <= i < m.running().len() ==> m.jobs().contains_key(#[trigger] m.running()[i].value) && (
            m.jobs()[m.running()[i].value].state == JobState::Running || m.jobs()[m.running()[i].value].state
                == JobState::Paused),
        forall|k: u128|
            #[trigger] m.jobs().contains_key(k) && m.jobs()[k].state == JobState::Pending ==> m.pending().contains(
                JobId { value: k },
            ),
        forall|k: u128| #[trigger] m.contexts().contains_key(k) ==> m.running().contains(JobId { value: k }),
        forall|k: u128| #[trigger] m.jobs().contains_key(k) ==> m.jobs()[k].id.value == k,
        forall|k: u128| #[trigger] m.contexts().contains_key(k) ==> m.contexts()[k].job_id.value == k,
{
}

/// Pausing a running job and then resuming it leaves the manager as it
/// was, but for the job's update time.
pub proof fn pause_then_resume(pre: JobManager, mid: JobManager, post: JobManager, id: JobId, t1: i64, t2: i64)
    requires
        pre.jobs().contains_key(id.value),
        pre.jobs()[id.value].state == JobState::Running,
        update_effect(pre, mid, id, Job { state: JobState::Paused, updated_at: t1, ..pre.jobs()[id.value] }),
        update_effect(mid, post, id, Job { state: JobState::Running, updated_at: t2, ..mid.jobs()[id.value] }),
    ensures
        post.jobs() == pre.jobs().insert(id.value, Job { updated_at: t2, ..pre.jobs()[id.value] }),
        post.pending() == pre.pending(),
        post.running() == pre.running(),
        post.contexts() == pre.contexts(),
        same_settings(pre, post),
{
    assert(post.jobs() =~= pre.jobs().insert(id.value, Job { updated_at: t2, ..pre.jobs()[id.value] }));
}

/// Starting a pending job and then completing it leaves the running queue
/// and the contexts as they were; the job has left the pending queue and
/// is completed.
pub proof fn start_then_complete(
    pre: JobManager,
    mid: JobManager,
    post: JobManager,
    id: JobId,
    t1: i64,
    results: Vec<JobResult>,
    t2: i64,
)
    requires
        pre.wf(),
        start_allowed(pre, id),
        start_effect(pre, mid, id, t1),
        end_effect(
            mid,
            post,
            id,
            Job { state: JobState::Completed, completed_at: Some(t2), results: results, updated_at: t2, ..mid.jobs()[id.value] },
            false,
        ),
    ensures
        post.pending() == without(pre.pending(), id),
        post.running() == pre.running(),
        post.contexts() == pre.contexts(),
        post.jobs().contains_key(id.value),
        post.jobs()[id.value].state == JobState::Completed,
        post.jobs()[id.value].started_at == Some(t1),
        post.jobs()[id.value].completed_at == Some(t2),
        forall|k: u128| k != id.value ==> #[trigger] post.jobs().contains_key(k) == pre.jobs().contains_key(k),
        forall|k: u128| k != id.value && #[trigger] pre.jobs().contains_key(k) ==> post.jobs()[k] == pre.jobs()[k],
        same_settings(pre, post),
{
    assert(!pre.running().contains(id)) by {
        if pre.running().contains(id) {
            let i = choose|i: int| 0 <= i < pre.running().len() && pre.running()[i] == id;
            assert(pre.jobs().contains_key(pre.running()[i].value));
        }
    }
    lemma_without_absent_push(pre.running(), id);
    assert(!pre.contexts().contains_key(id.value));
    assert(post.contexts() =~= pre.contexts()) by {
        assert forall|k: u128| #[trigger] post.contexts().contains_key(k) == pre.contexts().contains_key(k) by {
            if k == id.value {
            } else {
                assert(mid.contexts().contains_key(k) == (pre.contexts().contains_key(k) || seq![id].contains(
                    JobId { value: k },
                )));
                if seq![id].contains(JobId { value: k }) {
                    assert(seq![id][0] == JobId { value: k });
                }
            }
        }
        assert forall|k: u128| #[trigger] post.contexts().contains_key(k) implies post.contexts()[k] == pre.contexts()[k] by {
            assert(k != id.value);
            assert(!seq![id].contains(JobId { value: k })) by {
                if seq![id].contains(JobId { value: k }) {
                    assert(seq![id][0] == JobId { value: k });
                }
            }
        }
    }
}

/// Adding a job and then removing it gives the job back and leaves the
/// manager as it was.
pub proof fn add_then_remove(pre: JobManager, mid: JobManager, post: JobManager, job: Job, removed: Job)
    requires
        pre.wf(),
        !pre.jobs().contains_key(job.id.value),
        mid.jobs() == pre.jobs().insert(job.id.value, job),
        mid.pending() == pre.pending().push(job.id),
        mid.running() == pre.running(),
        mid.contexts() == pre.contexts(),
        same_settings(pre, mid),
        removed == mid.jobs()[job.id.value],
        post.jobs() == mid.jobs().remove(job.id.value),
        post.pending() == without(mid.pending(), job.id),
        post.running() == without(mid.running(), job.id),
        post.contexts() == mid.contexts().remove(job.id.value),
        same_settings(mid, post),
    ensures
        removed == job,
        JobManager::unchanged(pre, post),
{
    let id = job.id;
    assert(!pre.pending().contains(id)) by {
        if pre.pending().contains(id) {
            let i = choose|i: int| 0 <= i < pre.pending().len() && pre.pending()[i] == id;
            assert(pre.jobs().contains_key(pre.pending()[i].value));
        }
    }
    assert(!pre.running().contains(id)) by {
        if pre.running().contains(id) {
            let i = choose|i: int| 0 <= i < pre.running().len() && pre.running()[i] == id;
            assert(pre.jobs().contains_key(pre.running()[i].value));
        }
    }
    lemma_without_absent_push(pre.pending(), id);
    lemma_without_absent_push(pre.running(), id);
    assert(!pre.contexts().contains_key(id.value));
    assert(post.jobs() =~= pre.jobs());
    assert(post.contexts() =~= pre.contexts());
}

} // verus!
