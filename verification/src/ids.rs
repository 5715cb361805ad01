//! Identifiers of the framework's entities. Each holds the 128-bit value of a
//! UUID.

use vstd::prelude::*;

verus! {

/// The 128-bit value of a fresh random UUID, made by `uuid::Uuid::new_v4`
/// and read back with `Uuid::as_u128`. The value is random; what the uuid
/// source shows is that version 4 sets the version and variant bits, so the
/// value is never the nil UUID (zero).
#[verifier::external_body]
pub(crate) fn random_uuid_value() -> (r: u128)
    ensures
        r != 0,
{
    uuid::Uuid::new_v4().as_u128()
}

/// The lower-case hexadecimal digit for `d`, from 0 to 15.
pub open spec fn hex_char(d: int) -> char {
    seq!['0', '1', '2', '3', '4', '5', '6', '7', '8', '9', 'a', 'b', 'c', 'd', 'e', 'f'][d]
}

/// The `i`-th of the 32 hexadecimal digits of `value`, the most significant
/// first.
pub open spec fn hex_digit(value: u128, i: int) -> int {
    (value as int / vstd::arithmetic::power2::pow2((4 * (31 - i)) as nat) as int) % 16
}

/// The number of hyphens before position `k` of a UUID's text.
pub open spec fn hyphens_before(k: int) -> int {
    if k <= 8 {
        0
    } else if k <= 13 {
        1
    } else if k <= 18 {
        2
    } else if k <= 23 {
        3
    } else {
        4
    }
}

/// The text that `uuid::Uuid`'s `Display` gives for the UUID with value
/// `value`: its 32 lower-case hexadecimal digits, the most significant
/// first, with a hyphen after the 8th, 12th, 16th and 20th.
#[verifier::opaque]
pub open spec fn uuid_text(value: u128) -> Seq<char> {
    Seq::new(
        36,
        |k: int|
            if k == 8 || k == 13 || k == 18 || k == 23 {
                '-'
            } else {
                hex_char(hex_digit(value, k - hyphens_before(k)))
            },
    )
}

/// The value that `uuid::Uuid::parse_str` reads from `text`, or `None` where
/// it returns an error.
pub uninterp spec fn uuid_parse(text: Seq<char>) -> Option<u128>;

/// Formats a UUID value with `uuid::Uuid::from_u128(value).to_string()`.
/// The contract says that the text is `uuid_text(value)`, and that
/// `parse_str` reads it back as the same value: the uuid
/// documentation lists the hyphenated form that `Display` writes among the
/// forms that `parse_str` accepts.
#[verifier::external_body]
pub(crate) fn format_uuid(value: u128) -> (r: String)
    ensures
        r@ == uuid_text(value),
        uuid_parse(r@) == Some(value),
{
    uuid::Uuid::from_u128(value).to_string()
}

/// Parses a UUID with `uuid::Uuid::parse_str` and returns its value.
/// The contract names the result `uuid_parse(text@)`, and states the one fact
/// that the uuid documentation gives of the two functions together: the text
/// that `Display` writes is among the formats that `parse_str` accepts, and
/// it reads back the same value.
#[verifier::external_body]
pub(crate) fn parse_uuid(text: &str) -> (r: Option<u128>)
    ensures
        r == uuid_parse(text@),
        forall|v: u128| #[trigger] uuid_text(v) == text@ ==> r == Some(v),
{
    match uuid::Uuid::parse_str(text) {
        Ok(u) => Some(u.as_u128()),
        Err(_) => None,
    }
}

/// Identifier of a job.
#[derive(Clone, Copy, Debug, PartialEq, Eq, Hash, Structural)]
pub struct JobId {
    pub value: u128,
}

/// Identifier of a project.
#[derive(Clone, Copy, Debug, PartialEq, Eq, Hash, Structural)]
pub struct ProjectId {
    pub value: u128,
}

/// Identifier of an operation inside a project.
#[derive(Clone, Copy, Debug, PartialEq, Eq, Hash, Structural)]
pub struct OperationId {
    pub value: u128,
}

/// Identifier of an actor.
#[derive(Clone, Copy, Debug, PartialEq, Eq, Hash, Structural)]
pub struct ActorId {
    pub value: u128,
}

/// Identifier of an event.
#[derive(Clone, Copy, Debug, PartialEq, Eq, Hash, Structural)]
pub struct EventId {
    pub value: u128,
}

/// Identifier of a knowledge entry.
#[derive(Clone, Copy, Debug, PartialEq, Eq, Hash, Structural)]
pub struct KnowledgeId {
    pub value: u128,
}

/// Identifier of a memory entry.
#[derive(Clone, Copy, Debug, PartialEq, Eq, Hash, Structural)]
pub struct MemoryId {
    pub value: u128,
}

/// Identifier of a checkpoint.
#[derive(Clone, Copy, Debug, PartialEq, Eq, Hash, Structural)]
pub struct CheckpointId {
    pub value: u128,
}

/// Identifier of a piece of evidence.
#[derive(Clone, Copy, Debug, PartialEq, Eq, Hash, Structural)]
pub struct EvidenceId {
    pub value: u128,
}

/// Identifier of an audit record. The nil value (zero) marks a record that
/// has not been given an identifier yet.
#[derive(Clone, Copy, Debug, PartialEq, Eq, Hash, Structural)]
pub struct AuditId {
    pub value: u128,
}

impl JobId {
    /// The identifier whose text is `text`, where `text` is a UUID in a
    /// form that `uuid::Uuid::parse_str` accepts; see `uuid_parse`.
    pub fn from_text(text: &str) -> (r: Option<JobId>)
        ensures
            r == match uuid_parse(text@) {
                Some(v) => Some(JobId { value: v }),
                None => None,
            },
            forall|v: u128| #[trigger] uuid_text(v) == text@ ==> r == Some(JobId { value: v }),
    {
        match parse_uuid(text) {
            Some(v) => Some(JobId { value: v }),
            None => None,
        }
    }

    /// A fresh random identifier.
    pub fn new() -> (r: JobId)
        ensures
            r.value != 0,
    {
        JobId { value: random_uuid_value() }
    }

    /// The identifier with the given value.
    pub fn from_value(value: u128) -> (r: JobId)
        ensures
            r.value == value,
    {
        JobId { value }
    }

    /// The hyphenated text of the identifier.
    pub fn to_text(&self) -> (r: String)
        ensures
            r@ == uuid_text(self.value),
            uuid_parse(r@) == Some(self.value),
    {
        format_uuid(self.value)
    }
}

impl ProjectId {
    /// The identifier whose text is `text`, where `text` is a UUID in a
    /// form that `uuid::Uuid::parse_str` accepts; see `uuid_parse`.
    pub fn from_text(text: &str) -> (r: Option<ProjectId>)
        ensures
            r == match uuid_parse(text@) {
                Some(v) => Some(ProjectId { value: v }),
                None => None,
            },
            forall|v: u128| #[trigger] uuid_text(v) == text@ ==> r == Some(ProjectId { value: v }),
    {
        match parse_uuid(text) {
            Some(v) => Some(ProjectId { value: v }),
            None => None,
        }
    }

    /// A fresh random identifier.
    pub fn new() -> (r: ProjectId)
        ensures
            r.value != 0,
    {
        ProjectId { value: random_uuid_value() }
    }

    /// The hyphenated text of the identifier.
    pub fn to_text(&self) -> (r: String)
        ensures
            r@ == uuid_text(self.value),
            uuid_parse(r@) == Some(self.value),
    {
        format_uuid(self.value)
    }
}

impl OperationId {
    /// A fresh random identifier.
    pub fn new() -> (r: OperationId)
        ensures
            r.value != 0,
    {
        OperationId { value: random_uuid_value() }
    }
}

impl ActorId {
    /// The identifier whose text is `text`, where `text` is a UUID in a
    /// form that `uuid::Uuid::parse_str` accepts; see `uuid_parse`.
    pub fn from_text(text: &str) -> (r: Option<ActorId>)
        ensures
            r == match uuid_parse(text@) {
                Some(v) => Some(ActorId { value: v }),
                None => None,
            },
            forall|v: u128| #[trigger] uuid_text(v) == text@ ==> r == Some(ActorId { value: v }),
    {
        match parse_uuid(text) {
            Some(v) => Some(ActorId { value: v }),
            None => None,
        }
    }

    /// A fresh random identifier.
    pub fn new() -> (r: ActorId)
        ensures
            r.value != 0,
    {
        ActorId { value: random_uuid_value() }
    }

    /// The hyphenated text of the identifier.
    pub fn to_text(&self) -> (r: String)
        ensures
            r@ == uuid_text(self.value),
            uuid_parse(r@) == Some(self.value),
    {
        format_uuid(self.value)
    }
}

impl EventId {
    /// The identifier whose text is `text`, where `text` is a UUID in a
    /// form that `uuid::Uuid::parse_str` accepts; see `uuid_parse`.
    pub fn from_text(text: &str) -> (r: Option<EventId>)
        ensures
            r == match uuid_parse(text@) {
                Some(v) => Some(EventId { value: v }),
                None => None,
            },
            forall|v: u128| #[trigger] uuid_text(v) == text@ ==> r == Some(EventId { value: v }),
    {
        match parse_uuid(text) {
            Some(v) => Some(EventId { value: v }),
            None => None,
        }
    }

    /// A fresh random identifier.
    pub fn new() -> (r: EventId)
        ensures
            r.value != 0,
    {
        EventId { value: random_uuid_value() }
    }

    /// The hyphenated text of the identifier.
    pub fn to_text(&self) -> (r: String)
        ensures
            r@ == uuid_text(self.value),
            uuid_parse(r@) == Some(self.value),
    {
        format_uuid(self.value)
    }
}

impl KnowledgeId {
    /// A fresh random identifier.
    pub fn new() -> (r: KnowledgeId)
        ensures
            r.value != 0,
    {
        KnowledgeId { value: random_uuid_value() }
    }

    /// The hyphenated text of the identifier.
    pub fn to_text(&self) -> (r: String)
        ensures
            r@ == uuid_text(self.value),
            uuid_parse(r@) == Some(self.value),
    {
        format_uuid(self.value)
    }
}

impl MemoryId {
    /// A fresh random identifier.
    pub fn new() -> (r: MemoryId)
        ensures
            r.value != 0,
    {
        MemoryId { value: random_uuid_value() }
    }

    /// The hyphenated text of the identifier.
    pub fn to_text(&self) -> (r: String)
        ensures
            r@ == uuid_text(self.value),
            uuid_parse(r@) == Some(self.value),
    {
        format_uuid(self.value)
    }
}

impl CheckpointId {
    /// A fresh random identifier.
    pub fn new() -> (r: CheckpointId)
        ensures
            r.value != 0,
    {
        CheckpointId { value: random_uuid_value() }
    }

    /// The hyphenated text of the identifier.
    pub fn to_text(&self) -> (r: String)
        ensures
            r@ == uuid_text(self.value),
            uuid_parse(r@) == Some(self.value),
    {
        format_uuid(self.value)
    }
}

impl EvidenceId {
    /// A fresh random identifier.
    pub fn new() -> (r: EvidenceId)
        ensures
            r.value != 0,
    {
        EvidenceId { value: random_uuid_value() }
    }
}

impl AuditId {
    /// A fresh random identifier; never the nil value.
    pub fn new() -> (r: AuditId)
        ensures
            r.value != 0,
    {
        AuditId { value: random_uuid_value() }
    }

    /// The nil identifier.
    pub fn nil() -> (r: AuditId)
        ensures
            r.value == 0,
    {
        AuditId { value: 0 }
    }
}

} // verus!
