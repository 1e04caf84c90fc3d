//! The decisions of the service's operations.
//!
//! An operation that needs the store or the ledger is cut where it waits for
//! them: each function here takes what came back and says what to reply or
//! what to do next.

use crate::anchoring::{AnchoringWorker, Phase};
use crate::db::StoreError;
use crate::digest::event_hash;
use crate::models::{
    text_of, CreateLogRequest, CreateLogResponse, ErrorResponse, HealthResponse, LogEntry,
    LogQueryParams, PaginatedResponse, ValidationError, VerificationResponse,
};
use crate::query::{page_offset, DEFAULT_LIMIT};
use crate::solana::LedgerError;
use uuid::Uuid;
use vstd::prelude::*;

verus! {

/// A reply of the service: the status of the response and its body.
#[derive(Debug, PartialEq, Eq)]
pub enum ApiReply<T> {
    Success(T),
    Created(T),
    BadRequest(ErrorResponse),
    NotFound(ErrorResponse),
    InternalServerError(ErrorResponse),
}

impl<T> ApiReply<T> {
    /// The HTTP status code of the reply, as contracts see it.
    pub open spec fn code(&self) -> int {
        match self {
            ApiReply::Success(_) => 200,
            ApiReply::Created(_) => 201,
            ApiReply::BadRequest(_) => 400,
            ApiReply::NotFound(_) => 404,
            ApiReply::InternalServerError(_) => 500,
        }
    }

    /// The HTTP status code of the reply.
    pub fn status_code(&self) -> (code: u16)
        ensures
            code == self.code(),
    {
        match self {
            ApiReply::Success(_) => 200,
            ApiReply::Created(_) => 201,
            ApiReply::BadRequest(_) => 400,
            ApiReply::NotFound(_) => 404,
            ApiReply::InternalServerError(_) => 500,
        }
    }
}

impl VerificationResponse {
    /// Whether this is the verdict on `log` with the given validity, ledger
    /// hash and message. Every verdict repeats the record's id, hash,
    /// reference and status.
    pub open spec fn is_verdict(
        &self,
        log: LogEntry,
        is_valid: bool,
        blockchain_hash: Option<Seq<char>>,
        message: Seq<char>,
    ) -> bool {
        &&& self.log_id == log.id
        &&& self.is_valid == is_valid
        &&& self.local_hash@ == log.hash@
        &&& text_of(self.blockchain_hash) == blockchain_hash
        &&& text_of(self.tx_signature) == text_of(log.tx_signature)
        &&& self.blockchain_status == log.blockchain_status
        &&& self.message@ == message
    }
}

/// What the verification of a record does once the record was looked up.
#[derive(Debug, PartialEq, Eq)]
pub enum VerifyStep {
    /// The reply is known without the ledger.
    Reply(ApiReply<VerificationResponse>),
    /// The ledger has to be asked what it holds under `tx_signature`, the
    /// reference of `log`.
    AskLedger { log: LogEntry, tx_signature: String },
}

/// The first half of a verification: what to do with the outcome of the
/// record's lookup.
///
/// A failed lookup and an unknown id are replied to as errors. A record
/// without a reference has not been anchored: the verdict is negative and
/// needs no ledger. Any other record is checked against the ledger.
pub fn verify_log(found: Result<Option<LogEntry>, StoreError>) -> (step: VerifyStep)
    ensures
        match found {
            Err(_) => step matches VerifyStep::Reply(ApiReply::InternalServerError(e)) && e.says(
                "database_error"@,
                "Failed to fetch log entry"@,
            ),
            Ok(None) => step matches VerifyStep::Reply(ApiReply::NotFound(e)) && e.says(
                "not_found"@,
                "Log entry not found"@,
            ),
            Ok(Some(entry)) => match entry.tx_signature {
                None => step matches VerifyStep::Reply(ApiReply::Success(v)) && v.is_verdict(
                    entry,
                    false,
                    None,
                    "Log not yet submitted to blockchain"@,
                ),
                Some(reference) => step matches VerifyStep::AskLedger { log, tx_signature }
                    && log@ == entry@ && tx_signature@ == reference@,
            },
        },
{
    match found {
        Err(_) => VerifyStep::Reply(
            ApiReply::InternalServerError(
                ErrorResponse::new("database_error", "Failed to fetch log entry"),
            ),
        ),
        Ok(None) => VerifyStep::Reply(
            ApiReply::NotFound(ErrorResponse::new("not_found", "Log entry not found")),
        ),
        Ok(Some(log)) => {
            match &log.tx_signature {
                None => VerifyStep::Reply(
                    ApiReply::Success(
                        VerificationResponse {
                            log_id: log.id,
                            is_valid: false,
                            local_hash: log.hash,
                            blockchain_hash: None,
                            tx_signature: None,
                            blockchain_status: log.blockchain_status,
                            message: "Log not yet submitted to blockchain".to_owned(),
                        },
                    ),
                ),
                Some(reference) => {
                    let tx_signature = reference.clone();
                    VerifyStep::AskLedger { log, tx_signature }
                },
            }
        },
    }
}

/// The second half of a verification: the reply once the ledger was asked
/// about the reference of `log`.
///
/// The ledger's hash equal to the stored one is the only positive verdict. A
/// different hash and a transaction without the tag are negative verdicts. A
/// lookup that failed is an error of the service, not a verdict.
pub fn verify_log_outcome(log: LogEntry, ledger: Result<Option<String>, LedgerError>) -> (reply:
    ApiReply<VerificationResponse>)
    ensures
        match ledger {
            Ok(Some(found)) => reply matches ApiReply::Success(v) && v.is_verdict(
                log,
                found@ == log.hash@,
                Some(found@),
                if found@ == log.hash@ {
                    "Log verified successfully"@
                } else {
                    "Hash mismatch - data may be corrupted"@
                },
            ),
            Ok(None) => reply matches ApiReply::Success(v) && v.is_verdict(
                log,
                false,
                None,
                "Hash not found in blockchain transaction"@,
            ),
            Err(_) => reply matches ApiReply::InternalServerError(e) && e.says(
                "blockchain_error"@,
                "Failed to verify log"@,
            ),
        },
{
    match ledger {
        Ok(Some(blockchain_hash)) => {
            let is_valid = blockchain_hash == log.hash;
            let message = if is_valid {
                "Log verified successfully"
            } else {
                "Hash mismatch - data may be corrupted"
            };
            ApiReply::Success(
                VerificationResponse {
                    log_id: log.id,
                    is_valid,
                    local_hash: log.hash,
                    blockchain_hash: Some(blockchain_hash),
                    tx_signature: log.tx_signature,
                    blockchain_status: log.blockchain_status,
                    message: message.to_owned(),
                },
            )
        },
        Ok(None) => ApiReply::Success(
            VerificationResponse {
                log_id: log.id,
                is_valid: false,
                local_hash: log.hash,
                blockchain_hash: None,
                tx_signature: log.tx_signature,
                blockchain_status: log.blockchain_status,
                message: "Hash not found in blockchain transaction".to_owned(),
            },
        ),
        Err(_) => ApiReply::InternalServerError(
            ErrorResponse::new("blockchain_error", "Failed to verify log"),
        ),
    }
}

/// The number that a text stands for as a UUID, in any of the writings that
/// the `uuid` crate reads, or `None` where it reads none.
pub uninterp spec fn uuid_of(text: Seq<char>) -> Option<u128>;

/// Calls `uuid::Uuid::parse_str`, and on success `Uuid::as_u128`. The
/// contract names the outcome `uuid_of` of the text.
#[verifier::external_body]
fn parse_uuid(text: &str) -> (id: Option<u128>)
    ensures
        id == uuid_of(text@),
{
    match Uuid::parse_str(text) {
        Ok(uuid) => Some(uuid.as_u128()),
        Err(_) => None,
    }
}

/// The id that a path names, or the reply to a path that names none.
pub fn log_id_or_reply(parsed: Option<u128>) -> (r: Result<u128, ErrorResponse>)
    ensures
        match parsed {
            Some(id) => r == Ok::<u128, ErrorResponse>(id),
            None => r matches Err(e) && e.says("invalid_id"@, "Invalid log ID format"@),
        },
{
    match parsed {
        Some(id) => Ok(id),
        None => Err(ErrorResponse::new("invalid_id", "Invalid log ID format")),
    }
}

/// Reads the id of a record out of the path of a request. A path that is
/// not a UUID is answered with a bad request.
pub fn parse_log_id(path: &str) -> (r: Result<u128, ErrorResponse>)
    ensures
        match uuid_of(path@) {
            Some(id) => r == Ok::<u128, ErrorResponse>(id),
            None => r matches Err(e) && e.says("invalid_id"@, "Invalid log ID format"@),
        },
{
    log_id_or_reply(parse_uuid(path))
}

/// The health of the service: `healthy` where both the store and the ledger
/// answer, `degraded` otherwise.
pub fn health_check(db_healthy: bool, solana_healthy: bool, version: &str) -> (response:
    HealthResponse)
    ensures
        response.status@ == if db_healthy && solana_healthy {
            "healthy"@
        } else {
            "degraded"@
        },
        response.database == db_healthy,
        response.solana_rpc == solana_healthy,
        response.version@ == version@,
{
    let status = if db_healthy && solana_healthy {
        "healthy"
    } else {
        "degraded"
    };
    HealthResponse {
        status: status.to_owned(),
        database: db_healthy,
        solana_rpc: solana_healthy,
        version: version.to_owned(),
    }
}

/// What the message of a rejected request says of the fields that broke the
/// length rule.
pub open spec fn validation_text(error: ValidationError) -> Seq<char> {
    if error.event_type && error.severity {
        "event_type: length must be between 1 and 255; severity: length must be between 1 and 50"@
    } else if error.event_type {
        "event_type: length must be between 1 and 255"@
    } else {
        "severity: length must be between 1 and 50"@
    }
}

/// The message of a rejected request.
pub fn validation_message(error: ValidationError) -> (message: &'static str)
    ensures
        message@ == validation_text(error),
{
    if error.event_type && error.severity {
        "event_type: length must be between 1 and 255; severity: length must be between 1 and 50"
    } else if error.event_type {
        "event_type: length must be between 1 and 255"
    } else {
        "severity: length must be between 1 and 50"
    }
}

/// What the recording of an event does first.
#[derive(Debug, PartialEq, Eq)]
pub enum CreateStep {
    /// The request is refused with this reply.
    Reply(ApiReply<CreateLogResponse>),
    /// The event is to be stored with this hash.
    Insert { hash: String },
}

/// The first half of recording an event: checks the request and computes its
/// hash.
///
/// A request that breaks the length rule is refused, and so is one whose
/// payload is not a JSON document: no record is stored without its hash.
pub fn create_log(request: &CreateLogRequest) -> (step: CreateStep)
    ensures
        if !request.event_type_ok() || !request.severity_ok() {
            step matches CreateStep::Reply(ApiReply::BadRequest(e)) && e.says(
                "validation_error"@,
                validation_text(request.broken_rules()),
            )
        } else {
            match event_hash(request.event_type@, request.severity@, request.data@) {
                Some(hash) => step matches CreateStep::Insert { hash: computed } && computed@
                    == hash,
                None => step matches CreateStep::Reply(ApiReply::BadRequest(e)) && e.says(
                    "validation_error"@,
                    "data: not a JSON document"@,
                ),
            }
        },
{
    match request.validate() {
        Err(error) => CreateStep::Reply(
            ApiReply::BadRequest(
                ErrorResponse::new("validation_error", validation_message(error)),
            ),
        ),
        Ok(_) => match request.compute_hash() {
            Err(_) => CreateStep::Reply(
                ApiReply::BadRequest(
                    ErrorResponse::new("validation_error", "data: not a JSON document"),
                ),
            ),
            Ok(hash) => CreateStep::Insert { hash },
        },
    }
}

/// The second half of recording an event: the reply once the store was
/// asked to keep the record, and the worker that anchors it.
///
/// A stored record is replied to at once, with its anchoring still pending,
/// and gets exactly one worker. A failure of the store is replied to with a
/// fixed message, and nothing is anchored.
pub fn log_created(inserted: Result<LogEntry, StoreError>) -> (r: (
    ApiReply<CreateLogResponse>,
    Option<AnchoringWorker>,
))
    ensures
        match inserted {
            Ok(entry) => {
                &&& r.0 matches ApiReply::Created(response) && response.id == entry.id
                    && response.hash@ == entry.hash@ && text_of(response.tx_signature)
                    == text_of(entry.tx_signature) && response.blockchain_status
                    == entry.blockchain_status && response.created_at == entry.created_at
                &&& r.1 matches Some(worker) && worker.log_id == entry.id && worker.hash@
                    == entry.hash@ && worker.phase == Phase::Pending
            },
            Err(_) => {
                &&& r.0 matches ApiReply::InternalServerError(e) && e.says(
                    "database_error"@,
                    "Failed to create log entry"@,
                )
                &&& r.1 is None
            },
        },
{
    match inserted {
        Ok(entry) => {
            let worker = AnchoringWorker::new(entry.id, entry.hash.clone());
            (ApiReply::Created(CreateLogResponse::from(entry)), Some(worker))
        },
        Err(_) => (
            ApiReply::InternalServerError(
                ErrorResponse::new("database_error", "Failed to create log entry"),
            ),
            None,
        ),
    }
}

/// The reply to the request for one record, once the store was asked for it.
pub fn get_log(found: Result<Option<LogEntry>, StoreError>) -> (reply: ApiReply<LogEntry>)
    ensures
        match found {
            Ok(Some(entry)) => reply == ApiReply::Success(entry),
            Ok(None) => reply matches ApiReply::NotFound(e) && e.says(
                "not_found"@,
                "Log entry not found"@,
            ),
            Err(_) => reply matches ApiReply::InternalServerError(e) && e.says(
                "database_error"@,
                "Failed to fetch log entry"@,
            ),
        },
{
    match found {
        Ok(Some(log)) => ApiReply::Success(log),
        Ok(None) => ApiReply::NotFound(ErrorResponse::new("not_found", "Log entry not found")),
        Err(_) => ApiReply::InternalServerError(
            ErrorResponse::new("database_error", "Failed to fetch log entry"),
        ),
    }
}

/// The page size that the reply to a listing repeats: the one that was asked
/// for, or 100 where none was.
pub open spec fn asked_limit(limit: Option<i64>) -> i64 {
    match limit {
        Some(n) => n,
        None => DEFAULT_LIMIT,
    }
}

/// The reply to a listing, once the store was asked for the page.
///
/// The reply repeats the limit and the offset of the request, with their
/// defaults where the request named none.
pub fn query_logs(params: &LogQueryParams, listed: Result<(Vec<LogEntry>, i64), StoreError>) -> (reply:
    ApiReply<PaginatedResponse<LogEntry>>)
    ensures
        match listed {
            Ok((logs, total)) => reply == ApiReply::Success(
                PaginatedResponse {
                    data: logs,
                    total,
                    limit: asked_limit(params.limit),
                    offset: page_offset(params.offset),
                },
            ),
            Err(_) => reply matches ApiReply::InternalServerError(e) && e.says(
                "database_error"@,
                "Failed to query logs"@,
            ),
        },
{
    match listed {
        Ok((logs, total)) => {
            let limit: i64 = match params.limit {
                Some(n) => n,
                None => DEFAULT_LIMIT,
            };
            let offset: i64 = match params.offset {
                Some(n) => n,
                None => 0,
            };
            ApiReply::Success(PaginatedResponse { data: logs, total, limit, offset })
        },
        Err(_) => ApiReply::InternalServerError(
            ErrorResponse::new("database_error", "Failed to query logs"),
        ),
    }
}

/// The numbers of the service: how many records there are in all and in each
/// status, and the wallet that submits to the ledger with its balance.
#[derive(Debug, PartialEq, Eq)]
pub struct Stats {
    pub total_logs: i64,
    pub pending_logs: i64,
    pub confirmed_logs: i64,
    pub failed_logs: i64,
    pub wallet_pubkey: String,
    pub wallet_balance_lamports: Option<u64>,
}

/// A count that could not be had counts as zero.
pub open spec fn count_or_zero(count: Result<i64, StoreError>) -> i64 {
    match count {
        Ok(n) => n,
        Err(_) => 0,
    }
}

/// A count that could not be had counts as zero.
pub fn or_zero(count: Result<i64, StoreError>) -> (n: i64)
    ensures
        n == count_or_zero(count),
{
    match count {
        Ok(n) => n,
        Err(_) => 0,
    }
}

/// Gathers the numbers of the service. A count that the store could not
/// give is reported as zero, a balance that the ledger could not give as
/// absent.
pub fn get_stats(
    total_logs: Result<i64, StoreError>,
    pending_logs: Result<i64, StoreError>,
    confirmed_logs: Result<i64, StoreError>,
    failed_logs: Result<i64, StoreError>,
    wallet_pubkey: String,
    wallet_balance: Result<u64, LedgerError>,
) -> (stats: Stats)
    ensures
        stats.total_logs == count_or_zero(total_logs),
        stats.pending_logs == count_or_zero(pending_logs),
        stats.confirmed_logs == count_or_zero(confirmed_logs),
        stats.failed_logs == count_or_zero(failed_logs),
        stats.wallet_pubkey == wallet_pubkey,
        stats.wallet_balance_lamports == match wallet_balance {
            Ok(lamports) => Some(lamports),
            Err(_) => None,
        },
{
    Stats {
        total_logs: or_zero(total_logs),
        pending_logs: or_zero(pending_logs),
        confirmed_logs: or_zero(confirmed_logs),
        failed_logs: or_zero(failed_logs),
        wallet_pubkey,
        wallet_balance_lamports: match wallet_balance {
            Ok(lamports) => Some(lamports),
            Err(_) => None,
        },
    }
}

} // verus!
