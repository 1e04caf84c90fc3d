//! The record of an audit event, and the requests and replies of the service.

use crate::digest::{canonical_payload, event_hash, hash_fields, HashError};
use vstd::prelude::*;
use vstd::std_specs::convert::FromSpecImpl;

verus! {

/// Where a record stands in the anchoring lifecycle.
///
/// A record starts out `Pending`. `Confirmed` and `Failed` are terminal.
#[derive(Clone, Copy, Debug, PartialEq, Eq, Structural)]
pub enum AnchorStatus {
    Pending,
    Confirmed,
    Failed,
}

impl AnchorStatus {
    /// The text that stands for the status in storage and in replies.
    pub open spec fn text(self) -> Seq<char> {
        match self {
            AnchorStatus::Pending => "pending"@,
            AnchorStatus::Confirmed => "confirmed"@,
            AnchorStatus::Failed => "failed"@,
        }
    }

    /// Whether no further transition can follow.
    pub open spec fn terminal(self) -> bool {
        self != AnchorStatus::Pending
    }

    /// The text that stands for the status in storage and in replies.
    pub fn as_str(&self) -> (s: &'static str)
        ensures
            s@ == self.text(),
    {
        match self {
            AnchorStatus::Pending => "pending",
            AnchorStatus::Confirmed => "confirmed",
            AnchorStatus::Failed => "failed",
        }
    }

    /// The status that a text stands for.
    pub open spec fn of_text(text: Seq<char>) -> Option<AnchorStatus> {
        if text == "pending"@ {
            Some(AnchorStatus::Pending)
        } else if text == "confirmed"@ {
            Some(AnchorStatus::Confirmed)
        } else if text == "failed"@ {
            Some(AnchorStatus::Failed)
        } else {
            None
        }
    }

    /// Reads a status from the text that stands for it in storage.
    pub fn parse(text: &str) -> (status: Option<AnchorStatus>)
        ensures
            status == Self::of_text(text@),
    {
        let given = text.to_owned();
        if given == "pending".to_owned() {
            Some(AnchorStatus::Pending)
        } else if given == "confirmed".to_owned() {
            Some(AnchorStatus::Confirmed)
        } else if given == "failed".to_owned() {
            Some(AnchorStatus::Failed)
        } else {
            None
        }
    }

    /// Whether no further transition can follow.
    pub fn is_terminal(&self) -> (b: bool)
        ensures
            b == self.terminal(),
    {
        match self {
            AnchorStatus::Pending => false,
            _ => true,
        }
    }
}

/// The text of a status is read back as that status.
pub proof fn lemma_status_text_round_trip(status: AnchorStatus)
    ensures
        AnchorStatus::of_text(status.text()) == Some(status),
{
    reveal_strlit("pending");
    reveal_strlit("confirmed");
    reveal_strlit("failed");
    assert("pending"@.len() == 7);
    assert("confirmed"@.len() == 9);
    assert("failed"@.len() == 6);
}

/// A record of the store, as seen by contracts.
pub struct LogRecord {
    pub id: u128,
    pub event_type: Seq<char>,
    pub severity: Seq<char>,
    pub data: Seq<char>,
    pub hash: Seq<char>,
    pub tx_signature: Option<Seq<char>>,
    pub blockchain_status: AnchorStatus,
    pub created_at: i64,
    pub updated_at: i64,
}

/// The view of an optional text.
pub open spec fn text_of(text: Option<String>) -> Option<Seq<char>> {
    match text {
        Some(s) => Some(s@),
        None => None,
    }
}

/// A record of the store.
///
/// `id` is the record's UUID as a 128-bit number. `data` is the JSON text of
/// the payload. `tx_signature` is the ledger's reference: present once the
/// hash has been anchored. The two timestamps count microseconds since the
/// Unix epoch.
#[derive(Debug, PartialEq, Eq)]
pub struct LogEntry {
    pub id: u128,
    pub event_type: String,
    pub severity: String,
    pub data: String,
    pub hash: String,
    pub tx_signature: Option<String>,
    pub blockchain_status: AnchorStatus,
    pub created_at: i64,
    pub updated_at: i64,
}

impl View for LogEntry {
    type V = LogRecord;

    open spec fn view(&self) -> LogRecord {
        LogRecord {
            id: self.id,
            event_type: self.event_type@,
            severity: self.severity@,
            data: self.data@,
            hash: self.hash@,
            tx_signature: text_of(self.tx_signature),
            blockchain_status: self.blockchain_status,
            created_at: self.created_at,
            updated_at: self.updated_at,
        }
    }
}

/// A copy of an optional text.
pub fn clone_text(text: &Option<String>) -> (copy: Option<String>)
    ensures
        copy == *text,
{
    match text {
        Some(s) => Some(s.clone()),
        None => None,
    }
}

impl Clone for LogEntry {
    fn clone(&self) -> (copy: LogEntry)
        ensures
            copy == *self,
    {
        LogEntry {
            id: self.id,
            event_type: self.event_type.clone(),
            severity: self.severity.clone(),
            data: self.data.clone(),
            hash: self.hash.clone(),
            tx_signature: clone_text(&self.tx_signature),
            blockchain_status: self.blockchain_status,
            created_at: self.created_at,
            updated_at: self.updated_at,
        }
    }
}

/// The longest `event_type` that is accepted, in characters.
pub const MAX_EVENT_TYPE_LEN: usize = 255;

/// The longest `severity` that is accepted, in characters.
pub const MAX_SEVERITY_LEN: usize = 50;

/// Which fields of a request broke the length rule.
#[derive(Clone, Copy, Debug, PartialEq, Eq, Structural)]
pub struct ValidationError {
    pub event_type: bool,
    pub severity: bool,
}

/// A request to record an event. `data` is the JSON text of the payload.
#[derive(Debug, PartialEq, Eq)]
pub struct CreateLogRequest {
    pub event_type: String,
    pub severity: String,
    pub data: String,
}

impl CreateLogRequest {
    /// Whether `event_type` has between 1 and 255 characters.
    pub open spec fn event_type_ok(&self) -> bool {
        1 <= self.event_type@.len() <= MAX_EVENT_TYPE_LEN
    }

    /// Whether `severity` has between 1 and 50 characters.
    pub open spec fn severity_ok(&self) -> bool {
        1 <= self.severity@.len() <= MAX_SEVERITY_LEN
    }

    /// Which fields break the length rule.
    pub open spec fn broken_rules(&self) -> ValidationError {
        ValidationError { event_type: !self.event_type_ok(), severity: !self.severity_ok() }
    }

    /// Checks the length rule of the two classification fields: the request
    /// passes if neither breaks it, and fails with those that do.
    pub fn validate(&self) -> (r: Result<(), ValidationError>)
        ensures
            r == if self.event_type_ok() && self.severity_ok() {
                Ok::<(), ValidationError>(())
            } else {
                Err::<(), ValidationError>(self.broken_rules())
            },
    {
        let event_type_len: usize = self.event_type.as_str().unicode_len();
        let severity_len: usize = self.severity.as_str().unicode_len();
        let event_type_ok = 1 <= event_type_len && event_type_len <= MAX_EVENT_TYPE_LEN;
        let severity_ok = 1 <= severity_len && severity_len <= MAX_SEVERITY_LEN;
        if event_type_ok && severity_ok {
            Ok(())
        } else {
            Err(ValidationError { event_type: !event_type_ok, severity: !severity_ok })
        }
    }

    /// The content hash of the event: 64 hexadecimal characters.
    ///
    /// A payload that is not a JSON document has no hash.
    pub fn compute_hash(&self) -> (r: Result<String, HashError>)
        ensures
            match r {
                Ok(hash) => event_hash(self.event_type@, self.severity@, self.data@) == Some(
                    hash@,
                ) && hash@.len() == 64,
                Err(e) => event_hash(self.event_type@, self.severity@, self.data@) is None && e
                    == HashError::UnrepresentablePayload,
            },
    {
        match canonical_payload(self.data.as_str()) {
            Ok(payload) => Ok(
                hash_fields(self.event_type.as_str(), self.severity.as_str(), payload.as_str()),
            ),
            Err(e) => Err(e),
        }
    }
}

impl Clone for CreateLogRequest {
    fn clone(&self) -> (copy: CreateLogRequest)
        ensures
            copy == *self,
    {
        CreateLogRequest {
            event_type: self.event_type.clone(),
            severity: self.severity.clone(),
            data: self.data.clone(),
        }
    }
}

/// The reply to a request that recorded an event.
#[derive(Debug, PartialEq, Eq)]
pub struct CreateLogResponse {
    pub id: u128,
    pub hash: String,
    pub tx_signature: Option<String>,
    pub blockchain_status: AnchorStatus,
    pub created_at: i64,
}

impl From<LogEntry> for CreateLogResponse {
    fn from(entry: LogEntry) -> (response: CreateLogResponse) {
        CreateLogResponse {
            id: entry.id,
            hash: entry.hash,
            tx_signature: entry.tx_signature,
            blockchain_status: entry.blockchain_status,
            created_at: entry.created_at,
        }
    }
}

impl FromSpecImpl<LogEntry> for CreateLogResponse {
    open spec fn obeys_from_spec() -> bool {
        true
    }

    open spec fn from_spec(entry: LogEntry) -> CreateLogResponse {
        CreateLogResponse {
            id: entry.id,
            hash: entry.hash,
            tx_signature: entry.tx_signature,
            blockchain_status: entry.blockchain_status,
            created_at: entry.created_at,
        }
    }
}

/// The filters and the page of a listing. Every field is optional; the two
/// dates count microseconds since the Unix epoch and bound `created_at` from
/// both sides, inclusively.
#[derive(Debug, PartialEq, Eq)]
pub struct LogQueryParams {
    pub event_type: Option<String>,
    pub severity: Option<String>,
    pub limit: Option<i64>,
    pub offset: Option<i64>,
    pub from_date: Option<i64>,
    pub to_date: Option<i64>,
}

/// A listing's filters, as seen by contracts.
pub struct LogFilter {
    pub event_type: Option<Seq<char>>,
    pub severity: Option<Seq<char>>,
    pub from_date: Option<i64>,
    pub to_date: Option<i64>,
}

impl LogQueryParams {
    /// The filters of the listing, without its page.
    pub open spec fn filter(&self) -> LogFilter {
        LogFilter {
            event_type: text_of(self.event_type),
            severity: text_of(self.severity),
            from_date: self.from_date,
            to_date: self.to_date,
        }
    }
}

/// The verdict on a stored record.
#[derive(Debug, PartialEq, Eq)]
pub struct VerificationResponse {
    pub log_id: u128,
    pub is_valid: bool,
    pub local_hash: String,
    pub blockchain_hash: Option<String>,
    pub tx_signature: Option<String>,
    pub blockchain_status: AnchorStatus,
    pub message: String,
}

/// One page of a listing, with the number of all records that match.
#[derive(Debug, PartialEq, Eq)]
pub struct PaginatedResponse<T> {
    pub data: Vec<T>,
    pub total: i64,
    pub limit: i64,
    pub offset: i64,
}

/// The health of the service and of what it depends on.
#[derive(Debug, PartialEq, Eq)]
pub struct HealthResponse {
    pub status: String,
    pub database: bool,
    pub solana_rpc: bool,
    pub version: String,
}

/// An error reply: a short code and a message for the caller.
#[derive(Debug, PartialEq, Eq)]
pub struct ErrorResponse {
    pub error: String,
    pub message: String,
}

impl ErrorResponse {
    /// Whether the reply carries this code and this message.
    pub open spec fn says(&self, error: Seq<char>, message: Seq<char>) -> bool {
        self.error@ == error && self.message@ == message
    }

    /// An error reply with this code and this message.
    pub fn new(error: &str, message: &str) -> (reply: ErrorResponse)
        ensures
            reply.says(error@, message@),
    {
        ErrorResponse { error: error.to_owned(), message: message.to_owned() }
    }
}

} // verus!
