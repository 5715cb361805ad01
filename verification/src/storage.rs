//! The records that the framework stores, and the rows they are written as
//! and read back from. Values that are JSON documents are held as their
//! text. Reading and writing the database itself is up to the embedding
//! program.

use vstd::prelude::*;
use crate::ids::{CheckpointId, EventId, JobId, KnowledgeId, MemoryId, format_uuid, parse_uuid, uuid_text, uuid_parse};
use crate::types::{JobPriority, JobStatus};
use crate::error::MalverdeError;
use crate::clock::unix_seconds_now;

verus! {

/// The JSON text that `serde_json::to_string` writes for a list of texts.
pub uninterp spec fn json_of_texts(texts: Seq<Seq<char>>) -> Seq<char>;

/// The list of texts that `serde_json::from_str` reads from `text`, or
/// `None` where it returns an error.
pub uninterp spec fn texts_of_json(text: Seq<char>) -> Option<Seq<Seq<char>>>;

/// Whether `serde_json::from_str` reads a JSON value from `text`.
pub uninterp spec fn json_valid(text: Seq<char>) -> bool;

/// The texts of a list of strings.
pub open spec fn texts(v: Seq<String>) -> Seq<Seq<char>> {
    v.map_values(|s: String| s@)
}

/// Writes a list of texts as JSON with `serde_json::to_string`. The
/// contract says that the call succeeds (its documentation says that it
/// fails only where a `Serialize` impl fails or a map has keys that are not
/// strings, and neither can happen for a list of strings), that the text is
/// the named result `json_of_texts`, and that `serde_json::from_str` reads
/// the list back from it, as serde_json documents for what `to_string`
/// writes.
#[verifier::external_body]
fn texts_to_json(list: &Vec<String>) -> (r: Result<String, String>)
    ensures
        r is Ok,
        r->Ok_0@ == json_of_texts(texts(list@)),
        texts_of_json(r->Ok_0@) == Some(texts(list@)),
{
    match serde_json::to_string(list) {
        Ok(s) => Ok(s),
        Err(e) => Err(e.to_string()),
    }
}

/// Reads a list of texts from JSON with `serde_json::from_str`. The
/// contract names the result `texts_of_json(text@)`.
#[verifier::external_body]
fn texts_from_json(text: &str) -> (r: Option<Vec<String>>)
    ensures
        match r {
            Some(v) => texts_of_json(text@) == Some(texts(v@)),
            None => texts_of_json(text@) is None,
        },
{
    match serde_json::from_str::<Vec<String>>(text) {
        Ok(v) => Some(v),
        Err(_) => None,
    }
}

/// Whether `serde_json::from_str` reads a `serde_json::Value` from `text`.
/// The contract names the result `json_valid(text@)`.
#[verifier::external_body]
fn is_json(text: &str) -> (r: bool)
    ensures
        r == json_valid(text@),
{
    serde_json::from_str::<serde_json::Value>(text).is_ok()
}

/// The JSON text of the null value.
pub open spec fn null_text() -> Seq<char> {
    "null"@
}

/// What a JSON column is read back as: its text where that is a JSON
/// value, else null.
pub open spec fn json_read(text: Seq<char>) -> Seq<char> {
    if json_valid(text) {
        text
    } else {
        null_text()
    }
}

/// Reads a JSON column; see `json_read`.
fn read_json(text: &String) -> (r: String)
    ensures
        r@ == json_read(text@),
{
    if is_json(text.as_str()) {
        text.clone()
    } else {
        let r = String::from_str("null");
        proof {
            reveal_strlit("null");
        }
        r
    }
}

/// The name under which a status is stored.
pub open spec fn status_name(s: JobStatus) -> Seq<char> {
    match s {
        JobStatus::Pending => "Pending"@,
        JobStatus::Running => "Running"@,
        JobStatus::Paused => "Paused"@,
        JobStatus::Completed => "Completed"@,
        JobStatus::Failed => "Failed"@,
    }
}

/// The status stored under `name`; an unknown name reads as pending.
pub open spec fn status_of_name(name: Seq<char>) -> JobStatus {
    if name == "Running"@ {
        JobStatus::Running
    } else if name == "Paused"@ {
        JobStatus::Paused
    } else if name == "Completed"@ {
        JobStatus::Completed
    } else if name == "Failed"@ {
        JobStatus::Failed
    } else {
        JobStatus::Pending
    }
}

/// The name under which a priority is stored.
pub open spec fn priority_name(p: JobPriority) -> Seq<char> {
    match p {
        JobPriority::Low => "Low"@,
        JobPriority::Normal => "Normal"@,
        JobPriority::High => "High"@,
        JobPriority::Critical => "Critical"@,
    }
}

/// The priority stored under `name`; an unknown name reads as normal.
pub open spec fn priority_of_name(name: Seq<char>) -> JobPriority {
    if name == "Low"@ {
        JobPriority::Low
    } else if name == "High"@ {
        JobPriority::High
    } else if name == "Critical"@ {
        JobPriority::Critical
    } else {
        JobPriority::Normal
    }
}

/// The name under which a status is stored; see `status_name`.
pub fn status_to_text(s: JobStatus) -> (r: String)
    ensures
        r@ == status_name(s),
{
    match s {
        JobStatus::Pending => String::from_str("Pending"),
        JobStatus::Running => String::from_str("Running"),
        JobStatus::Paused => String::from_str("Paused"),
        JobStatus::Completed => String::from_str("Completed"),
        JobStatus::Failed => String::from_str("Failed"),
    }
}

/// The status stored under `name`; see `status_of_name`.
pub fn status_from_text(name: &str) -> (r: JobStatus)
    ensures
        r == status_of_name(name@),
{
    let s = String::from_str(name);
    if s == String::from_str("Running") {
        JobStatus::Running
    } else if s == String::from_str("Paused") {
        JobStatus::Paused
    } else if s == String::from_str("Completed") {
        JobStatus::Completed
    } else if s == String::from_str("Failed") {
        JobStatus::Failed
    } else {
        JobStatus::Pending
    }
}

/// The name under which a priority is stored; see `priority_name`.
pub fn priority_to_text(p: JobPriority) -> (r: String)
    ensures
        r@ == priority_name(p),
{
    match p {
        JobPriority::Low => String::from_str("Low"),
        JobPriority::Normal => String::from_str("Normal"),
        JobPriority::High => String::from_str("High"),
        JobPriority::Critical => String::from_str("Critical"),
    }
}

/// The priority stored under `name`; see `priority_of_name`.
pub fn priority_from_text(name: &str) -> (r: JobPriority)
    ensures
        r == priority_of_name(name@),
{
    let s = String::from_str(name);
    if s == String::from_str("Low") {
        JobPriority::Low
    } else if s == String::from_str("High") {
        JobPriority::High
    } else if s == String::from_str("Critical") {
        JobPriority::Critical
    } else {
        JobPriority::Normal
    }
}

/// Each status is stored under the name of its variant, and each such name
/// reads back as that variant.
pub proof fn statuses_stored_by_variant_name()
    ensures
        status_name(JobStatus::Pending) == "Pending"@,
        status_name(JobStatus::Running) == "Running"@,
        status_name(JobStatus::Paused) == "Paused"@,
        status_name(JobStatus::Completed) == "Completed"@,
        status_name(JobStatus::Failed) == "Failed"@,
        status_of_name("Pending"@) == JobStatus::Pending,
        status_of_name("Running"@) == JobStatus::Running,
        status_of_name("Paused"@) == JobStatus::Paused,
        status_of_name("Completed"@) == JobStatus::Completed,
        status_of_name("Failed"@) == JobStatus::Failed,
{
    reveal_strlit("Pending");
    reveal_strlit("Running");
    reveal_strlit("Paused");
    reveal_strlit("Completed");
    reveal_strlit("Failed");
    assert("Pending"@[0] != "Running"@[0]);
    assert("Pending"@[1] != "Paused"@[1]);
    assert("Pending"@[0] != "Completed"@[0]);
    assert("Pending"@[0] != "Failed"@[0]);
    assert("Paused"@[0] != "Running"@[0]);
    assert("Completed"@[0] != "Running"@[0]);
    assert("Completed"@[0] != "Paused"@[0]);
    assert("Failed"@[0] != "Running"@[0]);
    assert("Failed"@[0] != "Paused"@[0]);
    assert("Failed"@[0] != "Completed"@[0]);
}

/// Each priority is stored under the name of its variant, and each such
/// name reads back as that variant.
pub proof fn priorities_stored_by_variant_name()
    ensures
        priority_name(JobPriority::Low) == "Low"@,
        priority_name(JobPriority::Normal) == "Normal"@,
        priority_name(JobPriority::High) == "High"@,
        priority_name(JobPriority::Critical) == "Critical"@,
        priority_of_name("Low"@) == JobPriority::Low,
        priority_of_name("Normal"@) == JobPriority::Normal,
        priority_of_name("High"@) == JobPriority::High,
        priority_of_name("Critical"@) == JobPriority::Critical,
{
    reveal_strlit("Low");
    reveal_strlit("Normal");
    reveal_strlit("High");
    reveal_strlit("Critical");
    assert("Normal"@[0] != "Low"@[0]);
    assert("Normal"@[0] != "High"@[0]);
    assert("Normal"@[0] != "Critical"@[0]);
    assert("High"@[0] != "Low"@[0]);
    assert("Critical"@[0] != "Low"@[0]);
    assert("Critical"@[0] != "High"@[0]);
}

/// Reading back the name of a status gives the status.
pub proof fn status_names_read_back(s: JobStatus)
    ensures
        status_of_name(status_name(s)) == s,
{
    reveal_strlit("Pending");
    reveal_strlit("Running");
    reveal_strlit("Paused");
    reveal_strlit("Completed");
    reveal_strlit("Failed");
    match s {
        JobStatus::Pending => {
            assert("Pending"@[0] != "Running"@[0]);
            assert("Pending"@[1] != "Paused"@[1]);
            assert("Pending"@.len() != "Completed"@.len());
            assert("Pending"@[0] != "Failed"@[0]);
        },
        JobStatus::Running => {},
        JobStatus::Paused => {
            assert("Paused"@[0] != "Running"@[0]);
        },
        JobStatus::Completed => {
            assert("Completed"@.len() != "Running"@.len());
            assert("Completed"@.len() != "Paused"@.len());
        },
        JobStatus::Failed => {
            assert("Failed"@[0] != "Running"@[0]);
            assert("Failed"@[0] != "Paused"@[0]);
            assert("Failed"@[0] != "Completed"@[0]);
        },
    }
}

/// Reading back the name of a priority gives the priority.
pub proof fn priority_names_read_back(p: JobPriority)
    ensures
        priority_of_name(priority_name(p)) == p,
{
    reveal_strlit("Low");
    reveal_strlit("Normal");
    reveal_strlit("High");
    reveal_strlit("Critical");
    match p {
        JobPriority::Low => {},
        JobPriority::Normal => {
            assert("Normal"@.len() != "Low"@.len());
            assert("Normal"@[0] != "High"@[0]);
            assert("Normal"@.len() != "Critical"@.len());
        },
        JobPriority::High => {
            assert("High"@.len() != "Low"@.len());
        },
        JobPriority::Critical => {
            assert("Critical"@.len() != "Low"@.len());
            assert("Critical"@.len() != "High"@.len());
        },
    }
}

/// A copy of an optional text.
fn copy_option(s: &Option<String>) -> (r: Option<String>)
    ensures
        r == *s,
{
    match s {
        Some(t) => Some(t.clone()),
        None => None,
    }
}

/// An optional text with the empty text in place of none.
fn text_or_empty(s: &Option<String>) -> (r: String)
    ensures
        r@ == match s {
            Some(t) => t@,
            None => Seq::<char>::empty(),
        },
{
    match s {
        Some(t) => t.clone(),
        None => String::new(),
    }
}

/// A piece of stored knowledge. `metadata` is JSON text.
#[derive(Debug)]
pub struct Knowledge {
    pub id: KnowledgeId,
    pub title: String,
    pub content: String,
    pub tags: Vec<String>,
    pub metadata: String,
    pub created_at: i64,
    pub updated_at: i64,
}

impl Knowledge {
    /// Knowledge with the given title and content, identifier `id` and time
    /// `now` (in seconds), no tags and null metadata.
    pub fn new_at(title: String, content: String, id: KnowledgeId, now: i64) -> (r: Knowledge)
        ensures
            r.id == id,
            r.title == title,
            r.content == content,
            r.tags@.len() == 0,
            r.metadata@ == null_text(),
            r.created_at == now,
            r.updated_at == now,
    {
        let metadata = String::from_str("null");
        proof {
            reveal_strlit("null");
        }
        Knowledge { id, title, content, tags: Vec::new(), metadata, created_at: now, updated_at: now }
    }

    /// Knowledge as `new_at` makes it, with a fresh identifier, made now.
    pub fn new(title: String, content: String) -> (r: Knowledge)
        ensures
            r.title == title,
            r.content == content,
            r.tags@.len() == 0,
            r.metadata@ == null_text(),
            r.created_at == r.updated_at,
    {
        let now = unix_seconds_now();
        Knowledge::new_at(title, content, KnowledgeId::new(), now)
    }

    /// The knowledge with the given tags.
    pub fn with_tags(self, tags: Vec<String>) -> (r: Knowledge)
        ensures
            r == (Knowledge { tags, ..self }),
    {
        Knowledge { tags, ..self }
    }

    /// The knowledge with the given metadata, as JSON text.
    pub fn with_metadata(self, metadata: String) -> (r: Knowledge)
        ensures
            r == (Knowledge { metadata, ..self }),
    {
        Knowledge { metadata, ..self }
    }
}

/// A row of the knowledge table, as written and as read.
#[derive(Debug)]
pub struct KnowledgeRow {
    pub id: String,
    pub title: String,
    pub content: String,
    pub tags: String,
    pub metadata: String,
    pub created_at: i64,
    pub updated_at: i64,
}

/// The row that stores `k`, where its tags are written as `tags_json`.
pub open spec fn knowledge_row(k: Knowledge, tags_json: Seq<char>, row: KnowledgeRow) -> bool {
    &&& row.id@ == uuid_text(k.id.value)
    &&& uuid_parse(row.id@) == Some(k.id.value)
    &&& row.title == k.title
    &&& row.content == k.content
    &&& row.tags@ == tags_json
    &&& row.metadata == k.metadata
    &&& row.created_at == k.created_at
    &&& row.updated_at == k.updated_at
}

/// The row that stores `k`, with the tags written as JSON. Writing a list
/// of texts as JSON does not fail, so the result is always `Ok`; a failure
/// would be returned as a serialization error.
pub fn knowledge_to_row(k: &Knowledge) -> (r: Result<KnowledgeRow, MalverdeError>)
    ensures
        r is Ok,
        knowledge_row(*k, json_of_texts(texts(k.tags@)), r->Ok_0),
        texts_of_json(r->Ok_0.tags@) == Some(texts(k.tags@)),
{
    match texts_to_json(&k.tags) {
        Ok(tags) => Ok(
            KnowledgeRow {
                id: k.id.to_text(),
                title: k.title.clone(),
                content: k.content.clone(),
                tags,
                metadata: k.metadata.clone(),
                created_at: k.created_at,
                updated_at: k.updated_at,
            },
        ),
        Err(e) => Err(MalverdeError::SerializationError(e)),
    }
}

/// The knowledge `k` that `row` is read as: tags that are not a JSON list
/// of texts read as none, and metadata that is not JSON as null.
pub open spec fn knowledge_read(row: KnowledgeRow, k: Knowledge) -> bool {
    &&& Some(k.id.value) == uuid_parse(row.id@)
    &&& k.title == row.title
    &&& k.content == row.content
    &&& texts(k.tags@) == match texts_of_json(row.tags@) {
        Some(t) => t,
        None => Seq::<Seq<char>>::empty(),
    }
    &&& k.metadata@ == json_read(row.metadata@)
    &&& k.created_at == row.created_at
    &&& k.updated_at == row.updated_at
}

/// The knowledge that `row` is read as: tags that are not a JSON list of
/// texts read as none, and metadata that is not JSON as null. `None` where
/// the identifier is not a UUID.
pub fn knowledge_from_row(row: &KnowledgeRow) -> (r: Option<Knowledge>)
    ensures
        r is None <==> uuid_parse(row.id@) is None,
        r is Some ==> knowledge_read(*row, r->0),
{
    match parse_uuid(row.id.as_str()) {
        Some(v) => {
            let tags = match texts_from_json(row.tags.as_str()) {
                Some(t) => t,
                None => {
                    let e: Vec<String> = Vec::new();
                    assert(texts(e@) =~= Seq::<Seq<char>>::empty());
                    e
                },
            };
            Some(
                Knowledge {
                    id: KnowledgeId { value: v },
                    title: row.title.clone(),
                    content: row.content.clone(),
                    tags,
                    metadata: read_json(&row.metadata),
                    created_at: row.created_at,
                    updated_at: row.updated_at,
                },
            )
        },
        None => None,
    }
}

/// A remembered value under a key. `value` is JSON text.
#[derive(Debug)]
pub struct Memory {
    pub id: MemoryId,
    pub key: String,
    pub value: String,
    pub session_id: Option<String>,
    pub expires_at: Option<i64>,
    pub created_at: i64,
    pub updated_at: i64,
}

impl Memory {
    /// A memory of `value` under `key` with identifier `id`, made at `now`
    /// (in seconds), with no session and no expiry.
    pub fn new_at(key: String, value: String, id: MemoryId, now: i64) -> (r: Memory)
        ensures
            r.id == id,
            r.key == key,
            r.value == value,
            r.session_id is None,
            r.expires_at is None,
            r.created_at == now,
            r.updated_at == now,
    {
        Memory { id, key, value, session_id: None, expires_at: None, created_at: now, updated_at: now }
    }

    /// A memory as `new_at` makes it, with a fresh identifier, made now.
    pub fn new(key: String, value: String) -> (r: Memory)
        ensures
            r.key == key,
            r.value == value,
            r.session_id is None,
            r.expires_at is None,
            r.created_at == r.updated_at,
    {
        let now = unix_seconds_now();
        Memory::new_at(key, value, MemoryId::new(), now)
    }
}

/// A row of the memory table, as written and as read.
#[derive(Debug)]
pub struct MemoryRow {
    pub id: String,
    pub key: String,
    pub value: String,
    pub session_id: Option<String>,
    pub expires_at: Option<i64>,
    pub created_at: i64,
    pub updated_at: i64,
}

/// The row that stores `m`: a missing session is written as the empty
/// text and a missing expiry as 0.
pub fn memory_to_row(m: &Memory) -> (r: MemoryRow)
    ensures
        r.id@ == uuid_text(m.id.value),
        r.key == m.key,
        r.value == m.value,
        r.session_id is Some && r.session_id->0@ == match m.session_id {
            Some(t) => t@,
            None => Seq::<char>::empty(),
        },
        r.expires_at == Some(match m.expires_at {
            Some(t) => t,
            None => 0i64,
        }),
        r.created_at == m.created_at,
        r.updated_at == m.updated_at,
{
    MemoryRow {
        id: m.id.to_text(),
        key: m.key.clone(),
        value: m.value.clone(),
        session_id: Some(text_or_empty(&m.session_id)),
        expires_at: Some(
            match m.expires_at {
                Some(t) => t,
                None => 0,
            },
        ),
        created_at: m.created_at,
        updated_at: m.updated_at,
    }
}

/// The memory that `row` is read as: a value that is not JSON reads as
/// null. `None` where the identifier is not a UUID.
pub fn memory_from_row(row: &MemoryRow) -> (r: Option<Memory>)
    ensures
        r is None <==> uuid_parse(row.id@) is None,
        r is Some ==> {
            let m = r->0;
            &&& Some(m.id.value) == uuid_parse(row.id@)
            &&& m.key == row.key
            &&& m.value@ == json_read(row.value@)
            &&& m.session_id == row.session_id
            &&& m.expires_at == row.expires_at
            &&& m.created_at == row.created_at
            &&& m.updated_at == row.updated_at
        },
{
    match parse_uuid(row.id.as_str()) {
        Some(v) => Some(
            Memory {
                id: MemoryId { value: v },
                key: row.key.clone(),
                value: read_json(&row.value),
                session_id: copy_option(&row.session_id),
                expires_at: row.expires_at,
                created_at: row.created_at,
                updated_at: row.updated_at,
            },
        ),
        None => None,
    }
}

/// An event as stored. `data` is JSON text.
#[derive(Debug)]
pub struct StoredEvent {
    pub id: EventId,
    pub event_type: String,
    pub data: String,
    pub timestamp: i64,
    pub processed: bool,
}

impl StoredEvent {
    /// An unprocessed stored event made at time `now` (in seconds).
    pub fn new_at(id: EventId, event_type: String, data: String, now: i64) -> (r: StoredEvent)
        ensures
            r == (StoredEvent { id, event_type, data, timestamp: now, processed: false }),
    {
        StoredEvent { id, event_type, data, timestamp: now, processed: false }
    }

    /// An unprocessed stored event made now.
    pub fn new(id: EventId, event_type: String, data: String) -> (r: StoredEvent)
        ensures
            r.id == id,
            r.event_type == event_type,
            r.data == data,
            !r.processed,
    {
        let now = unix_seconds_now();
        StoredEvent::new_at(id, event_type, data, now)
    }
}

/// A row of the events table, as written and as read.
#[derive(Debug)]
pub struct EventRow {
    pub id: String,
    pub event_type: String,
    pub data: String,
    pub timestamp: i64,
    pub processed: i32,
}

/// The row that stores `e`: processed is written as 1, else 0.
pub fn event_to_row(e: &StoredEvent) -> (r: EventRow)
    ensures
        r.id@ == uuid_text(e.id.value),
        r.event_type == e.event_type,
        r.data == e.data,
        r.timestamp == e.timestamp,
        r.processed == if e.processed { 1i32 } else { 0i32 },
{
    EventRow {
        id: e.id.to_text(),
        event_type: e.event_type.clone(),
        data: e.data.clone(),
        timestamp: e.timestamp,
        processed: if e.processed {
            1
        } else {
            0
        },
    }
}

/// The stored event that `row` is read as: data that is not JSON reads as
/// null, and any processed value but 0 as processed. `None` where the
/// identifier is not a UUID.
pub fn event_from_row(row: &EventRow) -> (r: Option<StoredEvent>)
    ensures
        r is None <==> uuid_parse(row.id@) is None,
        r is Some ==> {
            let e = r->0;
            &&& Some(e.id.value) == uuid_parse(row.id@)
            &&& e.event_type == row.event_type
            &&& e.data@ == json_read(row.data@)
            &&& e.timestamp == row.timestamp
            &&& e.processed == (row.processed != 0)
        },
{
    match parse_uuid(row.id.as_str()) {
        Some(v) => Some(
            StoredEvent {
                id: EventId { value: v },
                event_type: row.event_type.clone(),
                data: read_json(&row.data),
                timestamp: row.timestamp,
                processed: row.processed != 0,
            },
        ),
        None => None,
    }
}

/// A job as stored. `data` is JSON text; times are in seconds.
#[derive(Debug)]
pub struct Job {
    pub id: JobId,
    pub name: String,
    pub description: Option<String>,
    pub status: JobStatus,
    pub priority: JobPriority,
    pub data: String,
    pub checkpoint_id: Option<CheckpointId>,
    pub created_at: i64,
    pub updated_at: i64,
    pub started_at: Option<i64>,
    pub completed_at: Option<i64>,
}

impl Job {
    /// A pending job of normal priority with the given name, identifier
    /// `id` and time `now`, null data and nothing else set.
    pub fn new_at(name: String, id: JobId, now: i64) -> (r: Job)
        ensures
            r.id == id,
            r.name == name,
            r.description is None,
            r.status == JobStatus::Pending,
            r.priority == JobPriority::Normal,
            r.data@ == null_text(),
            r.checkpoint_id is None,
            r.created_at == now,
            r.updated_at == now,
            r.started_at is None,
            r.completed_at is None,
    {
        let data = String::from_str("null");
        proof {
            reveal_strlit("null");
        }
        Job {
            id,
            name,
            description: None,
            status: JobStatus::Pending,
            priority: JobPriority::Normal,
            data,
            checkpoint_id: None,
            created_at: now,
            updated_at: now,
            started_at: None,
            completed_at: None,
        }
    }

    /// A job as `new_at` makes it, with a fresh identifier, made now.
    pub fn new(name: String) -> (r: Job)
        ensures
            r.name == name,
            r.description is None,
            r.status == JobStatus::Pending,
            r.priority == JobPriority::Normal,
            r.data@ == null_text(),
            r.checkpoint_id is None,
            r.created_at == r.updated_at,
            r.started_at is None,
            r.completed_at is None,
    {
        let now = unix_seconds_now();
        Job::new_at(name, JobId::new(), now)
    }

    /// Marks the job running, started and updated at `now`.
    pub fn start_at(&mut self, now: i64)
        ensures
            *final(self) == (Job { status: JobStatus::Running, started_at: Some(now), updated_at: now, ..*old(self) }),
    {
        self.status = JobStatus::Running;
        self.started_at = Some(now);
        self.updated_at = now;
    }

    /// Marks the job completed, completed and updated at `now`.
    pub fn complete_at(&mut self, now: i64)
        ensures
            *final(self) == (Job { status: JobStatus::Completed, completed_at: Some(now), updated_at: now, ..*old(self) }),
    {
        self.status = JobStatus::Completed;
        self.completed_at = Some(now);
        self.updated_at = now;
    }

    /// Marks the job failed, updated at `now`.
    pub fn fail_at(&mut self, now: i64)
        ensures
            *final(self) == (Job { status: JobStatus::Failed, updated_at: now, ..*old(self) }),
    {
        self.status = JobStatus::Failed;
        self.updated_at = now;
    }

    /// Marks the job running now; see `start_at`. The start and update
    /// times are read from the clock one after the other.
    pub fn start(&mut self)
        ensures
            final(self).status == JobStatus::Running,
            final(self).started_at is Some,
            *final(self) == (Job { status: JobStatus::Running, started_at: final(self).started_at, updated_at: final(self).updated_at, ..*old(self) }),
    {
        self.status = JobStatus::Running;
        self.started_at = Some(unix_seconds_now());
        self.updated_at = unix_seconds_now();
    }

    /// Marks the job completed now; see `complete_at`. The completion and
    /// update times are read from the clock one after the other.
    pub fn complete(&mut self)
        ensures
            final(self).completed_at is Some,
            *final(self) == (Job { status: JobStatus::Completed, completed_at: final(self).completed_at, updated_at: final(self).updated_at, ..*old(self) }),
    {
        self.status = JobStatus::Completed;
        self.completed_at = Some(unix_seconds_now());
        self.updated_at = unix_seconds_now();
    }

    /// Marks the job failed now; see `fail_at`.
    pub fn fail(&mut self)
        ensures
            *final(self) == (Job { status: JobStatus::Failed, updated_at: final(self).updated_at, ..*old(self) }),
    {
        let now = unix_seconds_now();
        self.fail_at(now);
    }
}

/// A row of the jobs table, as written and as read.
#[derive(Debug)]
pub struct JobRow {
    pub id: String,
    pub name: String,
    pub description: Option<String>,
    pub status: String,
    pub priority: String,
    pub data: String,
    pub checkpoint_id: Option<String>,
    pub created_at: i64,
    pub updated_at: i64,
    pub started_at: Option<i64>,
    pub completed_at: Option<i64>,
}

/// The row that stores `j`: the status and priority by name, a missing
/// description or checkpoint as the empty text, and a missing start or
/// completion time as 0.
pub open spec fn job_row(j: Job, row: JobRow) -> bool {
    &&& row.id@ == uuid_text(j.id.value)
    &&& uuid_parse(row.id@) == Some(j.id.value)
    &&& row.name == j.name
    &&& row.description is Some && row.description->0@ == match j.description {
        Some(t) => t@,
        None => Seq::<char>::empty(),
    }
    &&& row.status@ == status_name(j.status)
    &&& row.priority@ == priority_name(j.priority)
    &&& row.data == j.data
    &&& row.checkpoint_id is Some && row.checkpoint_id->0@ == match j.checkpoint_id {
        Some(c) => uuid_text(c.value),
        None => Seq::<char>::empty(),
    }
    &&& (j.checkpoint_id is Some ==> uuid_parse(row.checkpoint_id->0@) == Some(j.checkpoint_id->0.value))
    &&& row.created_at == j.created_at
    &&& row.updated_at == j.updated_at
    &&& row.started_at == Some(
        match j.started_at {
            Some(t) => t,
            None => 0i64,
        },
    )
    &&& row.completed_at == Some(
        match j.completed_at {
            Some(t) => t,
            None => 0i64,
        },
    )
}

/// The row that stores `j`; see `job_row`.
pub fn job_to_row(j: &Job) -> (r: JobRow)
    ensures
        job_row(*j, r),
{
    JobRow {
        id: j.id.to_text(),
        name: j.name.clone(),
        description: Some(text_or_empty(&j.description)),
        status: status_to_text(j.status),
        priority: priority_to_text(j.priority),
        data: j.data.clone(),
        checkpoint_id: Some(
            match &j.checkpoint_id {
                Some(c) => c.to_text(),
                None => String::new(),
            },
        ),
        created_at: j.created_at,
        updated_at: j.updated_at,
        started_at: Some(
            match j.started_at {
                Some(t) => t,
                None => 0,
            },
        ),
        completed_at: Some(
            match j.completed_at {
                Some(t) => t,
                None => 0,
            },
        ),
    }
}

/// The identifiers of a job row can be read: the job's, and the
/// checkpoint's where there is one.
pub open spec fn job_row_readable(row: JobRow) -> bool {
    &&& uuid_parse(row.id@) is Some
    &&& (row.checkpoint_id is Some ==> uuid_parse(row.checkpoint_id->0@) is Some)
}

/// The job that a readable `row` is read as.
pub open spec fn job_read(row: JobRow, j: Job) -> bool {
    &&& Some(j.id.value) == uuid_parse(row.id@)
    &&& j.name == row.name
    &&& j.description == row.description
    &&& j.status == status_of_name(row.status@)
    &&& j.priority == priority_of_name(row.priority@)
    &&& j.data@ == json_read(row.data@)
    &&& j.checkpoint_id == match row.checkpoint_id {
        Some(c) => Some(CheckpointId { value: uuid_parse(c@)->0 }),
        None => None,
    }
    &&& j.created_at == row.created_at
    &&& j.updated_at == row.updated_at
    &&& j.started_at == row.started_at
    &&& j.completed_at == row.completed_at
}

/// The job that `row` is read as: an unknown status name reads as pending,
/// an unknown priority name as normal, and data that is not JSON as null.
/// `None` where an identifier of the row is not a UUID.
pub fn job_from_row(row: &JobRow) -> (r: Option<Job>)
    ensures
        r is Some <==> job_row_readable(*row),
        r is Some ==> job_read(*row, r->0),
{
    let id = match parse_uuid(row.id.as_str()) {
        Some(v) => v,
        None => {
            return None;
        },
    };
    let checkpoint_id = match &row.checkpoint_id {
        Some(c) => match parse_uuid(c.as_str()) {
            Some(v) => Some(CheckpointId { value: v }),
            None => {
                return None;
            },
        },
        None => None,
    };
    Some(
        Job {
            id: JobId { value: id },
            name: row.name.clone(),
            description: copy_option(&row.description),
            status: status_from_text(row.status.as_str()),
            priority: priority_from_text(row.priority.as_str()),
            data: read_json(&row.data),
            checkpoint_id,
            created_at: row.created_at,
            updated_at: row.updated_at,
            started_at: row.started_at,
            completed_at: row.completed_at,
        },
    )
}

/// A saved state of a job. `state` is JSON text.
#[derive(Debug)]
pub struct Checkpoint {
    pub id: CheckpointId,
    pub job_id: JobId,
    pub state: String,
    pub created_at: i64,
}

impl Checkpoint {
    /// A checkpoint of `state` for the job, with identifier `id`, made at
    /// `now` (in seconds).
    pub fn new_at(job_id: JobId, state: String, id: CheckpointId, now: i64) -> (r: Checkpoint)
        ensures
            r == (Checkpoint { id, job_id, state, created_at: now }),
    {
        Checkpoint { id, job_id, state, created_at: now }
    }

    /// A checkpoint as `new_at` makes it, with a fresh identifier, made now.
    pub fn new(job_id: JobId, state: String) -> (r: Checkpoint)
        ensures
            r.job_id == job_id,
            r.state == state,
    {
        let now = unix_seconds_now();
        Checkpoint::new_at(job_id, state, CheckpointId::new(), now)
    }
}

/// A row of the checkpoints table, as written and as read.
#[derive(Debug)]
pub struct CheckpointRow {
    pub id: String,
    pub job_id: String,
    pub state: String,
    pub created_at: i64,
}

/// The row that stores `c`.
pub fn checkpoint_to_row(c: &Checkpoint) -> (r: CheckpointRow)
    ensures
        r.id@ == uuid_text(c.id.value),
        r.job_id@ == uuid_text(c.job_id.value),
        r.state == c.state,
        r.created_at == c.created_at,
{
    CheckpointRow { id: c.id.to_text(), job_id: c.job_id.to_text(), state: c.state.clone(), created_at: c.created_at }
}

/// The checkpoint that `row` is read as: a state that is not JSON reads as
/// null. `None` where an identifier of the row is not a UUID.
pub fn checkpoint_from_row(row: &CheckpointRow) -> (r: Option<Checkpoint>)
    ensures
        r is Some <==> (uuid_parse(row.id@) is Some && uuid_parse(row.job_id@) is Some),
        r is Some ==> {
            let c = r->0;
            &&& Some(c.id.value) == uuid_parse(row.id@)
            &&& Some(c.job_id.value) == uuid_parse(row.job_id@)
            &&& c.state@ == json_read(row.state@)
            &&& c.created_at == row.created_at
        },
{
    let id = match parse_uuid(row.id.as_str()) {
        Some(v) => v,
        None => {
            return None;
        },
    };
    let job = match parse_uuid(row.job_id.as_str()) {
        Some(v) => v,
        None => {
            return None;
        },
    };
    Some(
        Checkpoint {
            id: CheckpointId { value: id },
            job_id: JobId { value: job },
            state: read_json(&row.state),
            created_at: row.created_at,
        },
    )
}

/// An audit row. `details` is JSON text.
#[derive(Debug)]
pub struct AuditLog {
    pub id: i64,
    pub action: String,
    pub entity_type: String,
    pub entity_id: String,
    pub user: Option<String>,
    pub timestamp: i64,
    pub details: String,
}

impl AuditLog {
    /// An audit row of `action` on the given entity, made at `now` (in
    /// seconds), with identifier 0, no user and null details.
    pub fn new_at(action: String, entity_type: String, entity_id: String, now: i64) -> (r: AuditLog)
        ensures
            r.id == 0,
            r.action == action,
            r.entity_type == entity_type,
            r.entity_id == entity_id,
            r.user is None,
            r.timestamp == now,
            r.details@ == null_text(),
    {
        let details = String::from_str("null");
        proof {
            reveal_strlit("null");
        }
        AuditLog { id: 0, action, entity_type, entity_id, user: None, timestamp: now, details }
    }

    /// An audit row as `new_at` makes it, made now.
    pub fn new(action: String, entity_type: String, entity_id: String) -> (r: AuditLog)
        ensures
            r.id == 0,
            r.action == action,
            r.entity_type == entity_type,
            r.entity_id == entity_id,
            r.user is None,
            r.details@ == null_text(),
    {
        let now = unix_seconds_now();
        AuditLog::new_at(action, entity_type, entity_id, now)
    }
}

/// A job row written by `job_to_row` for a job with a checkpoint and JSON
/// data reads back as that job, with a missing description read as the
/// empty text and missing times as 0.
pub proof fn job_row_reads_back(j: Job, row: JobRow, back: Job)
    requires
        job_row(j, row),
        j.checkpoint_id is Some,
        json_valid(j.data@),
        job_read(row, back),
    ensures
        job_row_readable(row),
        back.id == j.id,
        back.name == j.name,
        back.status == j.status,
        back.priority == j.priority,
        back.data@ == j.data@,
        back.checkpoint_id == j.checkpoint_id,
        back.created_at == j.created_at,
        back.updated_at == j.updated_at,
        back.description is Some,
        j.description is Some ==> back.description->0@ == j.description->0@,
        j.description is None ==> back.description->0@ == Seq::<char>::empty(),
        back.started_at == Some(if j.started_at is Some { j.started_at->0 } else { 0i64 }),
        back.completed_at == Some(if j.completed_at is Some { j.completed_at->0 } else { 0i64 }),
{
    status_names_read_back(j.status);
    priority_names_read_back(j.priority);
}

/// Knowledge written by `knowledge_to_row` reads back as itself: the same
/// identifier, title, content, tags, metadata and times, where its metadata
/// is JSON.
pub proof fn knowledge_row_reads_back(k: Knowledge, row: KnowledgeRow, back: Knowledge)
    requires
        knowledge_row(k, json_of_texts(texts(k.tags@)), row),
        texts_of_json(row.tags@) == Some(texts(k.tags@)),
        json_valid(k.metadata@),
        knowledge_read(row, back),
    ensures
        uuid_parse(row.id@) is Some,
        back.id == k.id,
        back.title == k.title,
        back.content == k.content,
        texts(back.tags@) == texts(k.tags@),
        back.metadata@ == k.metadata@,
        back.created_at == k.created_at,
        back.updated_at == k.updated_at,
{
}

} // verus!
