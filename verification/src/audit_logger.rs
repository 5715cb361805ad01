//! The audit logger, which keeps the most recent records and hands each to
//! a storage where it has one, and an in-memory storage.

use vstd::prelude::*;
use std::collections::VecDeque;
use crate::audit::{AuditAction, AuditLog, AuditQuery, AuditStorage, AuditSummary};
use crate::ids::AuditId;
use crate::error::MalverdeError;

verus! {

/// The buffer after `l` is added to it: where it already holds `max`
/// records or more, the oldest one, if any, leaves first.
pub open spec fn kept(buffer: Seq<AuditLog>, max: nat, l: AuditLog) -> Seq<AuditLog> {
    if buffer.len() >= max && buffer.len() > 0 {
        buffer.drop_first().push(l)
    } else {
        buffer.push(l)
    }
}

/// `b` is the record `l` as the logger keeps it: `l` itself, except that a
/// nil identifier is replaced by a fresh, non-nil one.
pub open spec fn logged_as(b: AuditLog, l: AuditLog) -> bool {
    &&& b.same_as(AuditLog { id: b.id, ..l })
    &&& b.id.value != 0
    &&& (l.id.value != 0 ==> b.id == l.id)
}

/// `after` is `before` with `l` logged into a buffer that keeps `max`
/// records.
pub open spec fn logs_into(before: Seq<AuditLog>, after: Seq<AuditLog>, max: nat, l: AuditLog) -> bool {
    exists|b: AuditLog| #[trigger] logged_as(b, l) && after == kept(before, max, b)
}

/// `r` holds copies of the records of `s`, in the same order.
pub open spec fn record_copies(r: Seq<AuditLog>, s: Seq<AuditLog>) -> bool {
    &&& r.len() == s.len()
    &&& forall|i: int| 0 <= i < r.len() ==> (#[trigger] r[i]).same_as(s[i])
}

/// The position of the first record of `s` with identifier `id`.
pub open spec fn first_with_id(s: Seq<AuditLog>, id: AuditId) -> int {
    choose|i: int| 0 <= i < s.len() && s[i].id == id && forall|j: int| 0 <= j < i ==> s[j].id != id
}

/// `s` holds a record with identifier `id`.
pub open spec fn holds_id(s: Seq<AuditLog>, id: AuditId) -> bool {
    exists|i: int| 0 <= i < s.len() && #[trigger] s[i].id == id
}

/// A buffer that holds no more records than it keeps still does after a
/// record is added, where it keeps any; the added record is the newest.
pub proof fn kept_within_max(buffer: Seq<AuditLog>, max: nat, l: AuditLog)
    requires
        max > 0,
        buffer.len() <= max,
    ensures
        kept(buffer, max, l).len() <= max,
        kept(buffer, max, l).last() == l,
{
}

/// Adding a record to a buffer that is not full keeps every record already
/// there, in order, before it.
pub proof fn kept_appends(buffer: Seq<AuditLog>, max: nat, l: AuditLog)
    requires
        buffer.len() < max,
    ensures
        kept(buffer, max, l) == buffer.push(l),
{
}

/// Logs audit records into a buffer of the most recent ones, and into a
/// storage where it has one.
pub struct AuditLogger<S> {
    storage: Option<S>,
    buffer: VecDeque<AuditLog>,
    max_buffer_size: usize,
}

impl<S: AuditStorage> AuditLogger<S> {
    /// The buffered records, oldest first.
    pub closed spec fn records(self) -> Seq<AuditLog> {
        self.buffer@
    }

    /// How many records the buffer keeps.
    pub closed spec fn max_size(self) -> nat {
        self.max_buffer_size as nat
    }

    /// Whether the logger has a storage.
    pub closed spec fn has_storage(self) -> bool {
        self.storage is Some
    }

    /// A logger without storage that keeps the 1000 most recent records.
    pub fn new() -> (r: AuditLogger<S>)
        ensures
            !r.has_storage(),
            r.records().len() == 0,
            r.max_size() == 1000,
    {
        AuditLogger { storage: None, buffer: VecDeque::new(), max_buffer_size: 1000 }
    }

    /// A logger with the given storage that keeps the 1000 most recent
    /// records.
    pub fn with_storage(storage: S) -> (r: AuditLogger<S>)
        ensures
            r.has_storage(),
            r.records().len() == 0,
            r.max_size() == 1000,
    {
        AuditLogger { storage: Some(storage), buffer: VecDeque::new(), max_buffer_size: 1000 }
    }

    /// Adds `log` to the buffer, dropping the oldest record where the buffer
    /// is full.
    pub fn add_to_buffer(&mut self, log: AuditLog) -> (r: Result<(), MalverdeError>)
        ensures
            r is Ok,
            final(self).records() == kept(old(self).records(), old(self).max_size(), log),
            final(self).max_size() == old(self).max_size(),
            final(self).has_storage() == old(self).has_storage(),
    {
        let ghost pre = self.buffer@;
        if self.buffer.len() >= self.max_buffer_size {
            let _ = self.buffer.pop_front();
            proof {
                if pre.len() > 0 {
                    assert(self.buffer@ =~= pre.drop_first());
                }
            }
        }
        self.buffer.push_back(log);
        Ok(())
    }

    /// Logs `log`, giving it a fresh identifier where it has the nil one:
    /// it is added to the buffer and then saved to the storage, if any. The
    /// identifier is returned, unless the storage fails, whose error is
    /// returned as a storage error.
    pub fn log(&mut self, log: AuditLog) -> (r: Result<AuditId, MalverdeError>)
        ensures
            logs_into(old(self).records(), final(self).records(), old(self).max_size(), log),
            final(self).max_size() == old(self).max_size(),
            final(self).has_storage() == old(self).has_storage(),
            !old(self).has_storage() ==> r is Ok,
            r is Ok ==> r->Ok_0 == final(self).records().last().id,
            r is Err ==> r->Err_0 is StorageError,
    {
        let ghost orig = log;
        let mut log = log;
        if log.id.value == 0 {
            log.id = AuditId::new();
        }
        let id = log.id;
        let copy = log.duplicate();
        let _ = self.add_to_buffer(copy);
        proof {
            assert(logged_as(copy, orig));
        }
        match &mut self.storage {
            Some(storage) => {
                match storage.save(&log) {
                    Ok(()) => Ok(id),
                    Err(e) => Err(MalverdeError::StorageError(e)),
                }
            },
            None => Ok(id),
        }
    }

    /// Logs a new record of `action` on the given resource; see `log`.
    pub fn log_action(&mut self, action: AuditAction, resource_type: String, resource_id: String) -> (r: Result<AuditId, MalverdeError>)
        ensures
            exists|l: AuditLog|
                #[trigger] logs_into(old(self).records(), final(self).records(), old(self).max_size(), l)
                    && l.action == action && l.resource_type == resource_type && l.resource_id == resource_id
                    && crate::audit::is_fresh_record(l),
            final(self).max_size() == old(self).max_size(),
            final(self).has_storage() == old(self).has_storage(),
            !old(self).has_storage() ==> r is Ok,
            r is Ok ==> r->Ok_0 == final(self).records().last().id,
            r is Err ==> r->Err_0 is StorageError,
    {
        let log = AuditLog::new(action, resource_type, resource_id);
        let ghost l = log;
        let r = self.log(log);
        assert(logs_into(old(self).records(), self.records(), old(self).max_size(), l));
        r
    }

    /// A copy of the first buffered record with identifier `id`; where the
    /// buffer has none, what the storage finds, or nothing without storage.
    pub fn get_log(&self, id: &AuditId) -> (r: Result<Option<AuditLog>, MalverdeError>)
        ensures
            holds_id(self.records(), *id) ==> r is Ok && r->Ok_0 is Some && r->Ok_0->0.same_as(
                self.records()[first_with_id(self.records(), *id)],
            ),
            !holds_id(self.records(), *id) && !self.has_storage() ==> r == Ok::<Option<AuditLog>, MalverdeError>(None),
            r is Err ==> r->Err_0 is StorageError,
    {
        let mut i: usize = 0;
        while i < self.buffer.len()
            invariant
                i <= self.buffer@.len(),
                forall|j: int| 0 <= j < i ==> self.buffer@[j].id != *id,
            decreases self.buffer@.len() - i,
        {
            if self.buffer[i].id == *id {
                proof {
                    let c = first_with_id(self.buffer@, *id);
                    assert(0 <= c < self.buffer@.len() && self.buffer@[c].id == *id && forall|j: int|
                        0 <= j < c ==> self.buffer@[j].id != *id) by {
                        assert(self.buffer@[i as int].id == *id);
                    }
                    if c < i {
                        assert(self.buffer@[c].id != *id);
                    }
                    if c > i {
                        assert(self.buffer@[i as int].id != *id);
                    }
                }
                return Ok(Some(self.buffer[i].duplicate()));
            }
            i = i + 1;
        }
        proof {
            if holds_id(self.buffer@, *id) {
                let c = choose|c: int| 0 <= c < self.buffer@.len() && #[trigger] self.buffer@[c].id == *id;
                assert(self.buffer@[c].id != *id);
            }
        }
        match &self.storage {
            Some(storage) => match storage.find_by_id(id) {
                Ok(found) => Ok(found),
                Err(e) => Err(MalverdeError::StorageError(e)),
            },
            None => Ok(None),
        }
    }

    /// Copies of the most recent buffered records, newest first, at most
    /// `limit` of them.
    pub fn get_recent_logs(&self, limit: usize) -> (r: Vec<AuditLog>)
        ensures
            record_copies(r@, self.records().reverse().take(
                if limit < self.records().len() { limit as int } else { self.records().len() as int },
            )),
    {
        let n = self.buffer.len();
        let count = if limit < n {
            limit
        } else {
            n
        };
        let mut r: Vec<AuditLog> = Vec::new();
        let mut i: usize = 0;
        while i < count
            invariant
                count <= n,
                n == self.buffer@.len(),
                i <= count,
                r@.len() == i,
                forall|j: int| 0 <= j < i ==> (#[trigger] r@[j]).same_as(self.buffer@[n - 1 - j]),
            decreases count - i,
        {
            r.push(self.buffer[n - 1 - i].duplicate());
            i = i + 1;
        }
        proof {
            let want = self.buffer@.reverse().take(count as int);
            assert forall|j: int| 0 <= j < r@.len() implies (#[trigger] r@[j]).same_as(want[j]) by {
                assert(want[j] == self.buffer@[n - 1 - j]);
            }
        }
        r
    }

    /// Sets how many records the buffer keeps; the records already buffered
    /// stay.
    pub fn set_max_buffer_size(&mut self, size: usize)
        ensures
            final(self).max_size() == size,
            final(self).records() == old(self).records(),
            final(self).has_storage() == old(self).has_storage(),
    {
        self.max_buffer_size = size;
    }
}

/// A storage that keeps audit records in memory.
pub struct MemoryAuditStorage {
    logs: Vec<AuditLog>,
}

impl MemoryAuditStorage {
    /// An empty storage.
    pub fn new() -> (r: MemoryAuditStorage)
        ensures
            r.saved().len() == 0,
    {
        MemoryAuditStorage { logs: Vec::new() }
    }

    /// The saved records, in the order they were saved.
    pub closed spec fn saved(self) -> Seq<AuditLog> {
        self.logs@
    }

    /// Copies of all saved records.
    fn all_copies(&self) -> (r: Vec<AuditLog>)
        ensures
            record_copies(r@, self.saved()),
    {
        let mut r: Vec<AuditLog> = Vec::new();
        let mut i: usize = 0;
        while i < self.logs.len()
            invariant
                i <= self.logs@.len(),
                r@.len() == i,
                forall|j: int| 0 <= j < i ==> (#[trigger] r@[j]).same_as(self.logs@[j]),
            decreases self.logs@.len() - i,
        {
            r.push(self.logs[i].duplicate());
            i = i + 1;
        }
        r
    }
}

/// Holds of every record whose identifier is not `id`.
pub open spec fn not_with_id(id: AuditId) -> spec_fn(AuditLog) -> bool {
    |l: AuditLog| l.id != id
}

impl AuditStorage for MemoryAuditStorage {
    /// Saves a copy of `log` after the records already saved.
    fn save(&mut self, log: &AuditLog) -> (r: Result<(), String>)
        ensures
            r is Ok,
            final(self).saved().len() == old(self).saved().len() + 1,
            final(self).saved().drop_last() == old(self).saved(),
            final(self).saved().last().same_as(*log),
    {
        self.logs.push(log.duplicate());
        assert(self.logs@.drop_last() =~= old(self).logs@);
        Ok(())
    }

    /// A copy of the first saved record with identifier `id`, if any.
    fn find_by_id(&self, id: &AuditId) -> (r: Result<Option<AuditLog>, String>)
        ensures
            holds_id(self.saved(), *id) ==> r is Ok && r->Ok_0 is Some && r->Ok_0->0.same_as(
                self.saved()[first_with_id(self.saved(), *id)],
            ),
            !holds_id(self.saved(), *id) ==> r == Ok::<Option<AuditLog>, String>(None),
    {
        let mut i: usize = 0;
        while i < self.logs.len()
            invariant
                i <= self.logs@.len(),
                forall|j: int| 0 <= j < i ==> self.logs@[j].id != *id,
            decreases self.logs@.len() - i,
        {
            if self.logs[i].id == *id {
                proof {
                    let c = first_with_id(self.logs@, *id);
                    assert(0 <= c < self.logs@.len() && self.logs@[c].id == *id && forall|j: int|
                        0 <= j < c ==> self.logs@[j].id != *id) by {
                        assert(self.logs@[i as int].id == *id);
                    }
                    if c < i {
                        assert(self.logs@[c].id != *id);
                    }
                    if c > i {
                        assert(self.logs@[i as int].id != *id);
                    }
                }
                return Ok(Some(self.logs[i].duplicate()));
            }
            i = i + 1;
        }
        proof {
            if holds_id(self.logs@, *id) {
                let c = choose|c: int| 0 <= c < self.logs@.len() && #[trigger] self.logs@[c].id == *id;
                assert(self.logs@[c].id != *id);
            }
        }
        Ok(None)
    }

    /// Copies of all saved records: this storage applies no condition of
    /// the query.
    fn query(&self, query: &AuditQuery) -> (r: Result<Vec<AuditLog>, String>)
        ensures
            r is Ok,
            record_copies(r->Ok_0@, self.saved()),
    {
        Ok(self.all_copies())
    }

    /// The number of saved records; this storage counts nothing else.
    fn get_summary(&self, query: &AuditQuery) -> (r: Result<AuditSummary, String>)
        ensures
            r is Ok,
            r->Ok_0.total_logs == self.saved().len(),
            r->Ok_0.by_action@.len() == 0,
            r->Ok_0.by_resource_type@.len() == 0,
            r->Ok_0.by_actor@.len() == 0,
            r->Ok_0.by_project@.len() == 0,
            r->Ok_0.success_count == 0,
            r->Ok_0.failure_count == 0,
            r->Ok_0.by_state@.len() == 0,
    {
        Ok(
            AuditSummary {
                total_logs: self.logs.len(),
                by_action: Vec::new(),
                by_resource_type: Vec::new(),
                by_actor: Vec::new(),
                by_project: Vec::new(),
                success_count: 0,
                failure_count: 0,
                by_state: Vec::new(),
            },
        )
    }

    /// Removes every saved record with identifier `id`.
    fn delete_by_id(&mut self, id: &AuditId) -> (r: Result<(), String>)
        ensures
            r is Ok,
            final(self).saved() == old(self).saved().filter(not_with_id(*id)),
    {
        let ghost pred = not_with_id(*id);
        let mut kept_logs: Vec<AuditLog> = Vec::new();
        let mut old_logs: Vec<AuditLog> = Vec::new();
        std::mem::swap(&mut old_logs, &mut self.logs);
        let ghost all = old_logs@;
        proof {
            reveal(Seq::filter);
            assert(all.take(0) =~= Seq::<AuditLog>::empty());
        }
        let mut rev: Vec<AuditLog> = Vec::new();
        while old_logs.len() > 0
            invariant
                old_logs@ + rev@.reverse() == all,
            decreases old_logs@.len(),
        {
            let l = old_logs.pop().unwrap();
            let ghost before = rev@;
            rev.push(l);
            proof {
                assert(rev@.reverse() =~= seq![l] + before.reverse());
            }
        }
        assert(rev@.reverse() =~= all);
        let ghost mut taken: int = 0;
        while rev.len() > 0
            invariant
                rev@.reverse() == all.skip(taken),
                0 <= taken <= all.len(),
                pred == not_with_id(*id),
                kept_logs@ == all.take(taken).filter(pred),
            decreases rev@.len(),
        {
            let ghost rv = rev@;
            let l = rev.pop().unwrap();
            proof {
                assert(taken < all.len()) by {
                    assert(all.skip(taken).len() == rv.len());
                }
                assert(all[taken] == l) by {
                    assert(rv.reverse()[0] == rv[rv.len() - 1]);
                    assert(all.skip(taken)[0] == l);
                }
                assert(rev@.reverse() =~= all.skip(taken + 1)) by {
                    assert(rv.reverse().skip(1) =~= rev@.reverse());
                }
                assert(all.take(taken + 1) =~= all.take(taken).push(l));
                all.take(taken).lemma_filter_push(l, pred);
            }
            if l.id != *id {
                kept_logs.push(l);
            }
            proof {
                taken = taken + 1;
            }
        }
        proof {
            assert(taken == all.len()) by {
                assert(all.skip(taken).len() == 0);
            }
            assert(all.take(taken) =~= all);
        }
        self.logs = kept_logs;
        Ok(())
    }

    /// Deletes nothing: this storage applies no query.
    fn delete_by_query(&mut self, query: &AuditQuery) -> (r: Result<usize, String>)
        ensures
            r == Ok::<usize, String>(0),
            final(self).saved() == old(self).saved(),
    {
        Ok(0)
    }
}

} // verus!
