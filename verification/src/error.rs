//! The errors the API answers with.
//!
//! Every failure becomes a JSON body with a stable `error` code, so clients can
//! branch on something other than prose.
//!
//! [`ErrorCode`] is a closed set: the wire string, the retry class and the log
//! level of a failure all come from exhaustive matches on it.

use vstd::prelude::*;
use vstd::string::*;

use crate::json::{
    find_key, json_items, json_members, lemma_json_key_index, lemma_key_index,
    lemma_key_index_unique, lookup, Json, JsonNumber, JsonView,
};
use crate::text::{decimal, push_decimal};

verus! {

/// The `Retry-After` a `collection_purging` refusal carries, in seconds.
pub const COLLECTION_PURGING_RETRY_AFTER_SECS: u64 = 5;

/// Every code the API can return, and nothing else.
#[derive(Clone, Copy, Debug, PartialEq, Eq, Structural)]
pub enum ErrorCode {
    BadRequest,
    PayloadTooLarge,
    UnsupportedMediaType,
    Unauthorized,
    Forbidden,
    NotFound,
    Conflict,
    DuplicateKey,
    UniqueViolation,
    /// Searching a collection whose vectors were never ingested.
    NoVectors,
    ResumeTokenExpired,
    RateLimited,
    Internal,
    Misconfigured,
    Snapshot,
    NotImplemented,
    ProviderError,
    /// A conditional write found the document at a different version than
    /// the caller's `if_stamp`, or found no document where one was expected.
    Stale,
    /// The request ran past `server.request_timeout_secs` and this node gave
    /// up on it.
    Timeout,
    /// A collection cannot be created under this name yet: what a drop of an
    /// earlier collection of the name held is still being removed.
    CollectionPurging,
    /// A write reached the storage engine's durability step and then failed:
    /// it may or may not have been applied, and if it was it replicates.
    OutcomeUnknown,
    /// A request that commits in more than one transaction failed after its
    /// first commit: part of it landed, and the answer says how much.
    PartiallyApplied,
}

/// What a client may do about a failure.
///
/// A client treats a class it does not know as `no`: the safe direction, since
/// a client that does not understand the advice does not act on it.
#[derive(Clone, Copy, Debug, PartialEq, Eq, Structural)]
pub enum Retry {
    /// Nothing to retry: the request must change, or the condition must.
    No,
    /// The same node, after a delay. `Retry-After` gives the delay when the
    /// server knows it; otherwise the client backs off on its own.
    Wait,
    /// A different node. The failure is local to this one, and a peer holds
    /// the same data.
    Elsewhere,
    /// Read the target back before deciding to send the request again: it may
    /// already have been applied.
    Verify,
}

/// The levels a failure may be logged at, and there are only three. A failure
/// meant to be quieter than `INFO` is not a log event at all.
#[derive(Clone, Copy, Debug, PartialEq, Eq, Structural)]
pub enum LogLevel {
    /// Page someone: this node's own state, and the operator's to fix.
    Error,
    /// A rise in these is worth looking at; no single one demands action.
    Warn,
    /// This happened and it is not a fault.
    Info,
}

impl Retry {
    /// The string on the wire.
    pub open spec fn word(self) -> Seq<char> {
        match self {
            Retry::No => "no"@,
            Retry::Wait => "wait"@,
            Retry::Elsewhere => "elsewhere"@,
            Retry::Verify => "verify"@,
        }
    }

    pub fn as_str(self) -> (s: &'static str)
        ensures
            s@ == self.word(),
    {
        match self {
            Retry::No => "no",
            Retry::Wait => "wait",
            Retry::Elsewhere => "elsewhere",
            Retry::Verify => "verify",
        }
    }
}

/// The type of `tracing`'s severities.
#[verifier::external_type_specification]
#[verifier::external_body]
pub struct ExLevel(tracing::Level);

/// The severity that `tracing` reads from a word.
pub uninterp spec fn level_named(word: Seq<char>) -> tracing::Level;

/// `tracing::Level`'s `FromStr`: the severity a word names. It reads each of
/// the three words asked of it here, and one word always reads the same.
#[verifier::external_body]
fn parse_level(word: &str) -> (level: tracing::Level)
    requires
        word@ == "ERROR"@ || word@ == "WARN"@ || word@ == "INFO"@,
    ensures
        level == level_named(word@),
{
    word.parse().unwrap()
}

impl LogLevel {
    /// The word the level is written with, as `tracing` writes its own.
    pub open spec fn word(self) -> Seq<char> {
        match self {
            LogLevel::Error => "ERROR"@,
            LogLevel::Warn => "WARN"@,
            LogLevel::Info => "INFO"@,
        }
    }

    fn as_str(self) -> (s: &'static str)
        ensures
            s@ == self.word(),
    {
        match self {
            LogLevel::Error => "ERROR",
            LogLevel::Warn => "WARN",
            LogLevel::Info => "INFO",
        }
    }

    /// The level's word.
    pub fn to_string(self) -> (s: String)
        ensures
            s@ == self.word(),
    {
        self.as_str().to_owned()
    }

    /// The `tracing` level this maps to: the one its word names.
    pub fn tracing(self) -> (level: tracing::Level)
        ensures
            level == level_named(self.word()),
    {
        parse_level(self.as_str())
    }
}

impl ErrorCode {
    /// Every code, in the order of their declaration.
    pub const ALL: [ErrorCode; 22] = [
        ErrorCode::BadRequest,
        ErrorCode::PayloadTooLarge,
        ErrorCode::UnsupportedMediaType,
        ErrorCode::Unauthorized,
        ErrorCode::Forbidden,
        ErrorCode::NotFound,
        ErrorCode::Conflict,
        ErrorCode::DuplicateKey,
        ErrorCode::UniqueViolation,
        ErrorCode::NoVectors,
        ErrorCode::ResumeTokenExpired,
        ErrorCode::RateLimited,
        ErrorCode::Internal,
        ErrorCode::Misconfigured,
        ErrorCode::Snapshot,
        ErrorCode::NotImplemented,
        ErrorCode::ProviderError,
        ErrorCode::Stale,
        ErrorCode::Timeout,
        ErrorCode::CollectionPurging,
        ErrorCode::OutcomeUnknown,
        ErrorCode::PartiallyApplied,
    ];

    /// The string on the wire.
    pub open spec fn word(self) -> Seq<char> {
        match self {
            ErrorCode::BadRequest => "bad_request"@,
            ErrorCode::PayloadTooLarge => "payload_too_large"@,
            ErrorCode::UnsupportedMediaType => "unsupported_media_type"@,
            ErrorCode::Unauthorized => "unauthorized"@,
            ErrorCode::Forbidden => "forbidden"@,
            ErrorCode::NotFound => "not_found"@,
            ErrorCode::Conflict => "conflict"@,
            ErrorCode::DuplicateKey => "duplicate_key"@,
            ErrorCode::UniqueViolation => "unique_violation"@,
            ErrorCode::NoVectors => "no_vectors"@,
            ErrorCode::ResumeTokenExpired => "resume_token_expired"@,
            ErrorCode::RateLimited => "rate_limited"@,
            ErrorCode::Internal => "internal"@,
            ErrorCode::Misconfigured => "misconfigured"@,
            ErrorCode::Snapshot => "snapshot"@,
            ErrorCode::NotImplemented => "not_implemented"@,
            ErrorCode::ProviderError => "provider_error"@,
            ErrorCode::Stale => "stale"@,
            ErrorCode::Timeout => "timeout"@,
            ErrorCode::CollectionPurging => "collection_purging"@,
            ErrorCode::OutcomeUnknown => "outcome_unknown"@,
            ErrorCode::PartiallyApplied => "partially_applied"@,
        }
    }

    /// The string on the wire. Stable: clients branch on it.
    pub fn as_str(self) -> (s: &'static str)
        ensures
            s@ == self.word(),
    {
        match self {
            ErrorCode::BadRequest => "bad_request",
            ErrorCode::PayloadTooLarge => "payload_too_large",
            ErrorCode::UnsupportedMediaType => "unsupported_media_type",
            ErrorCode::Unauthorized => "unauthorized",
            ErrorCode::Forbidden => "forbidden",
            ErrorCode::NotFound => "not_found",
            ErrorCode::Conflict => "conflict",
            ErrorCode::DuplicateKey => "duplicate_key",
            ErrorCode::UniqueViolation => "unique_violation",
            ErrorCode::NoVectors => "no_vectors",
            ErrorCode::ResumeTokenExpired => "resume_token_expired",
            ErrorCode::RateLimited => "rate_limited",
            ErrorCode::Internal => "internal",
            ErrorCode::Misconfigured => "misconfigured",
            ErrorCode::Snapshot => "snapshot",
            ErrorCode::NotImplemented => "not_implemented",
            ErrorCode::ProviderError => "provider_error",
            ErrorCode::Stale => "stale",
            ErrorCode::Timeout => "timeout",
            ErrorCode::CollectionPurging => "collection_purging",
            ErrorCode::OutcomeUnknown => "outcome_unknown",
            ErrorCode::PartiallyApplied => "partially_applied",
        }
    }

    /// What a client may do about a code.
    pub open spec fn retry_class(self) -> Retry {
        match self {
            ErrorCode::RateLimited
            | ErrorCode::ProviderError
            | ErrorCode::Timeout
            | ErrorCode::CollectionPurging => Retry::Wait,
            ErrorCode::OutcomeUnknown | ErrorCode::PartiallyApplied => Retry::Verify,
            ErrorCode::Internal | ErrorCode::Misconfigured | ErrorCode::Snapshot =>
                Retry::Elsewhere,
            _ => Retry::No,
        }
    }

    /// What a client may do about it.
    pub fn retry(self) -> (class: Retry)
        ensures
            class == self.retry_class(),
    {
        match self {
            // The request is wrong, or the state it asks about is. Sending it
            // again changes nothing.
            ErrorCode::BadRequest
            | ErrorCode::PayloadTooLarge
            | ErrorCode::UnsupportedMediaType
            | ErrorCode::Unauthorized
            | ErrorCode::Forbidden
            | ErrorCode::NotFound
            | ErrorCode::Conflict
            | ErrorCode::DuplicateKey
            | ErrorCode::UniqueViolation
            | ErrorCode::NoVectors
            | ErrorCode::ResumeTokenExpired
            | ErrorCode::Stale => Retry::No,
            // A capability that exists nowhere: no other node answers it.
            ErrorCode::NotImplemented => Retry::No,
            // Moving does not help: every node calls the same provider, reads
            // the same slow upload and removes its own copy of a drop.
            ErrorCode::RateLimited => Retry::Wait,
            ErrorCode::ProviderError => Retry::Wait,
            ErrorCode::Timeout => Retry::Wait,
            ErrorCode::CollectionPurging => Retry::Wait,
            // It may already have happened, and replicates if it did.
            ErrorCode::OutcomeUnknown => Retry::Verify,
            ErrorCode::PartiallyApplied => Retry::Verify,
            // Local to this node, and replication means a peer can answer.
            ErrorCode::Internal | ErrorCode::Misconfigured | ErrorCode::Snapshot =>
                Retry::Elsewhere,
        }
    }

    /// How loudly a code is logged. What the caller must fix is not logged.
    pub open spec fn default_level(self) -> Option<LogLevel> {
        match self {
            ErrorCode::NotImplemented => Some(LogLevel::Info),
            ErrorCode::ProviderError | ErrorCode::Timeout => Some(LogLevel::Warn),
            ErrorCode::Internal
            | ErrorCode::OutcomeUnknown
            | ErrorCode::PartiallyApplied
            | ErrorCode::Misconfigured
            | ErrorCode::Snapshot => Some(LogLevel::Error),
            _ => None,
        }
    }

    /// How loudly this node talks to its operator about a failure it answered
    /// with, or `None` for one it does not log at all. The discriminator is
    /// whose hands the fix is in, the operator's or the caller's.
    pub fn log_level(self) -> (level: Option<LogLevel>)
        ensures
            level == self.default_level(),
    {
        match self {
            ErrorCode::BadRequest
            | ErrorCode::PayloadTooLarge
            | ErrorCode::UnsupportedMediaType
            | ErrorCode::Unauthorized
            | ErrorCode::Forbidden
            | ErrorCode::NotFound
            | ErrorCode::Conflict
            | ErrorCode::DuplicateKey
            | ErrorCode::UniqueViolation
            | ErrorCode::NoVectors
            | ErrorCode::ResumeTokenExpired
            | ErrorCode::RateLimited
            | ErrorCode::Stale
            | ErrorCode::CollectionPurging => None,
            ErrorCode::NotImplemented => Some(LogLevel::Info),
            ErrorCode::ProviderError => Some(LogLevel::Warn),
            ErrorCode::Timeout => Some(LogLevel::Warn),
            ErrorCode::Internal => Some(LogLevel::Error),
            ErrorCode::OutcomeUnknown => Some(LogLevel::Error),
            ErrorCode::PartiallyApplied => Some(LogLevel::Error),
            ErrorCode::Misconfigured => Some(LogLevel::Error),
            ErrorCode::Snapshot => Some(LogLevel::Error),
        }
    }
}

/// A code's wire string by its length and two of its characters.
spec fn mark(word: Seq<char>) -> (nat, char, char) {
    (word.len(), word[0], word[2])
}

/// No two codes share a wire string: a client that branches on the string
/// branches on the code.
pub proof fn wire_strings_name_one_code(a: ErrorCode, b: ErrorCode)
    requires
        a.word() == b.word(),
    ensures
        a == b,
{
    reveal_strlit("bad_request");
    reveal_strlit("payload_too_large");
    reveal_strlit("unsupported_media_type");
    reveal_strlit("unauthorized");
    reveal_strlit("forbidden");
    reveal_strlit("not_found");
    reveal_strlit("conflict");
    reveal_strlit("duplicate_key");
    reveal_strlit("unique_violation");
    reveal_strlit("no_vectors");
    reveal_strlit("resume_token_expired");
    reveal_strlit("rate_limited");
    reveal_strlit("internal");
    reveal_strlit("misconfigured");
    reveal_strlit("snapshot");
    reveal_strlit("not_implemented");
    reveal_strlit("provider_error");
    reveal_strlit("stale");
    reveal_strlit("timeout");
    reveal_strlit("collection_purging");
    reveal_strlit("outcome_unknown");
    reveal_strlit("partially_applied");
    assert(mark(ErrorCode::BadRequest.word()) == (11nat, 'b', 'd'));
    assert(mark(ErrorCode::PayloadTooLarge.word()) == (17nat, 'p', 'y'));
    assert(mark(ErrorCode::UnsupportedMediaType.word()) == (22nat, 'u', 's'));
    assert(mark(ErrorCode::Unauthorized.word()) == (12nat, 'u', 'a'));
    assert(mark(ErrorCode::Forbidden.word()) == (9nat, 'f', 'r'));
    assert(mark(ErrorCode::NotFound.word()) == (9nat, 'n', 't'));
    assert(mark(ErrorCode::Conflict.word()) == (8nat, 'c', 'n'));
    assert(mark(ErrorCode::DuplicateKey.word()) == (13nat, 'd', 'p'));
    assert(mark(ErrorCode::UniqueViolation.word()) == (16nat, 'u', 'i'));
    assert(mark(ErrorCode::NoVectors.word()) == (10nat, 'n', '_'));
    assert(mark(ErrorCode::ResumeTokenExpired.word()) == (20nat, 'r', 's'));
    assert(mark(ErrorCode::RateLimited.word()) == (12nat, 'r', 't'));
    assert(mark(ErrorCode::Internal.word()) == (8nat, 'i', 't'));
    assert(mark(ErrorCode::Misconfigured.word()) == (13nat, 'm', 's'));
    assert(mark(ErrorCode::Snapshot.word()) == (8nat, 's', 'a'));
    assert(mark(ErrorCode::NotImplemented.word()) == (15nat, 'n', 't'));
    assert(mark(ErrorCode::ProviderError.word()) == (14nat, 'p', 'o'));
    assert(mark(ErrorCode::Stale.word()) == (5nat, 's', 'a'));
    assert(mark(ErrorCode::Timeout.word()) == (7nat, 't', 'm'));
    assert(mark(ErrorCode::CollectionPurging.word()) == (18nat, 'c', 'l'));
    assert(mark(ErrorCode::OutcomeUnknown.word()) == (15nat, 'o', 't'));
    assert(mark(ErrorCode::PartiallyApplied.word()) == (17nat, 'p', 'r'));
    assert(mark(a.word()) == mark(b.word()));
}

/// A refusal or a failure, on its way to the caller.
#[derive(Debug)]
pub struct ApiError {
    pub status: u16,
    pub code: ErrorCode,
    pub message: String,
    /// Seconds to wait before retrying, emitted as a `Retry-After` header.
    pub retry_after_secs: Option<u64>,
    /// A retry hint that differs from the code's usual one.
    pub retry_override: Option<Retry>,
    /// A log level that differs from the code's default, set where the source
    /// of the failure is known and the default is wrong for it.
    pub level_override: Option<LogLevel>,
    /// A more specific `error_description` for the `WWW-Authenticate`
    /// challenge than the generic one every 401 carries.
    pub challenge_description: Option<String>,
    /// Fields the envelope carries beside `error`, `message` and `retry`.
    pub extra: Option<Vec<(String, Json)>>,
}

/// What an [`ApiError`] holds.
pub struct ApiErrorView {
    pub status: u16,
    pub code: ErrorCode,
    pub message: Seq<char>,
    pub retry_after_secs: Option<u64>,
    pub retry_override: Option<Retry>,
    pub level_override: Option<LogLevel>,
    pub challenge_description: Option<Seq<char>>,
    pub extra: Option<Seq<(Seq<char>, JsonView)>>,
}

impl View for ApiError {
    type V = ApiErrorView;

    open spec fn view(&self) -> ApiErrorView {
        ApiErrorView {
            status: self.status,
            code: self.code,
            message: self.message@,
            retry_after_secs: self.retry_after_secs,
            retry_override: self.retry_override,
            level_override: self.level_override,
            challenge_description: match self.challenge_description {
                Some(s) => Some(s@),
                None => None,
            },
            extra: match self.extra {
                Some(members) => Some(json_members(members@)),
                None => None,
            },
        }
    }
}

/// The `error_description` a refusal asked for, riding on the response so the
/// challenge layer can use it. See [`ApiError::challenge_description`].
#[derive(Clone, Debug)]
pub struct ChallengeDescription(pub String);

/// An error with nothing but a status, a code and a message.
pub open spec fn refusal(status: u16, code: ErrorCode, message: Seq<char>) -> ApiErrorView {
    ApiErrorView {
        status,
        code,
        message,
        retry_after_secs: None,
        retry_override: None,
        level_override: None,
        challenge_description: None,
        extra: None,
    }
}

pub open spec fn bad_request(message: Seq<char>) -> ApiErrorView {
    refusal(400, ErrorCode::BadRequest, message)
}

pub open spec fn not_found(message: Seq<char>) -> ApiErrorView {
    refusal(404, ErrorCode::NotFound, message)
}

pub open spec fn conflict(message: Seq<char>) -> ApiErrorView {
    refusal(409, ErrorCode::Conflict, message)
}

pub open spec fn unauthorized(message: Seq<char>) -> ApiErrorView {
    refusal(401, ErrorCode::Unauthorized, message)
}

pub open spec fn forbidden() -> ApiErrorView {
    refusal(403, ErrorCode::Forbidden, "not authorized for this operation"@)
}

pub open spec fn internal(message: Seq<char>) -> ApiErrorView {
    refusal(500, ErrorCode::Internal, message)
}

pub open spec fn collection_purging(db: Seq<char>, name: Seq<char>) -> ApiErrorView {
    ApiErrorView {
        retry_after_secs: Some(COLLECTION_PURGING_RETRY_AFTER_SECS),
        ..refusal(
            503,
            ErrorCode::CollectionPurging,
            db + "."@ + name
                + " was dropped and what it held is still being removed; it can be created again once that finishes"@,
        )
    }
}

pub open spec fn too_many_requests(retry_after_secs: u64) -> ApiErrorView {
    ApiErrorView {
        retry_after_secs: Some(retry_after_secs),
        ..refusal(429, ErrorCode::RateLimited, "too many requests; retry later"@)
    }
}

pub open spec fn timeout(after_secs: u64) -> ApiErrorView {
    refusal(
        503,
        ErrorCode::Timeout,
        "the request was not completed within "@ + decimal(after_secs as nat)
            + " seconds (server.request_timeout_secs) and was abandoned"@,
    )
}

pub open spec fn writer_busy(waited_secs: u64) -> ApiErrorView {
    refusal(
        503,
        ErrorCode::Timeout,
        "the write waited "@ + decimal(waited_secs as nat)
            + " seconds (server.request_timeout_secs) for the storage writer, which another transaction held throughout, and was abandoned; nothing was written"@,
    )
}

pub open spec fn stale(current: Option<Seq<char>>) -> ApiErrorView {
    refusal(
        409,
        ErrorCode::Stale,
        match current {
            Some(stamp) => "the document is at stamp "@ + stamp
                + " rather than the one `if_stamp` named; re-read it and retry with the current stamp"@,
            None =>
                "no live document is at the stamp `if_stamp` named; it was deleted or never existed"@,
        },
    )
}

pub open spec fn outcome_unknown() -> ApiErrorView {
    refusal(
        500,
        ErrorCode::OutcomeUnknown,
        "the write reached the storage engine's durability step and then failed, so it may or may not have been applied; if it was, it replicates. Read it back before sending it again, unless the write is idempotent"@,
    )
}

pub open spec fn node_stopping(reason: Seq<char>) -> ApiErrorView {
    ApiErrorView {
        level_override: Some(LogLevel::Warn),
        ..refusal(
            503,
            ErrorCode::Internal,
            "this node did not begin the write because it is shutting down ("@ + reason
                + "); nothing was written. Send it to another member"@,
        )
    }
}

impl ApiErrorView {
    /// The retry hint a client will see.
    pub open spec fn retry(self) -> Retry {
        match self.retry_override {
            Some(retry) => retry,
            None => self.code.retry_class(),
        }
    }

    /// The level the failure is logged at.
    pub open spec fn log_level(self) -> Option<LogLevel> {
        match self.level_override {
            Some(level) => Some(level),
            None => self.code.default_level(),
        }
    }
}

impl ApiError {
    pub fn new(status: u16, code: ErrorCode, message: &str) -> (e: Self)
        ensures
            e@ == refusal(status, code, message@),
    {
        ApiError {
            status,
            code,
            message: message.to_owned(),
            retry_after_secs: None,
            retry_override: None,
            level_override: None,
            challenge_description: None,
            extra: None,
        }
    }

    /// The same error, with a specific `error_description` in its challenge.
    pub fn with_challenge_description(self, description: &str) -> (e: Self)
        ensures
            e@ == (ApiErrorView { challenge_description: Some(description@), ..self@ }),
    {
        ApiError { challenge_description: Some(description.to_owned()), ..self }
    }

    /// The same error with a different retry hint.
    pub fn with_retry(self, retry: Retry) -> (e: Self)
        ensures
            e@ == (ApiErrorView { retry_override: Some(retry), ..self@ }),
    {
        ApiError { retry_override: Some(retry), ..self }
    }

    /// The same error logged at a level other than its code's default.
    pub fn at_level(self, level: LogLevel) -> (e: Self)
        ensures
            e@ == (ApiErrorView { level_override: Some(level), ..self@ }),
    {
        ApiError { level_override: Some(level), ..self }
    }

    /// The retry hint a client will see.
    pub fn retry(&self) -> (class: Retry)
        ensures
            class == self@.retry(),
    {
        match self.retry_override {
            Some(retry) => retry,
            None => self.code.retry(),
        }
    }

    /// The level this failure is logged at, or `None` for one that is not
    /// logged. The instance's own answer wins over its code's default.
    pub fn log_level(&self) -> (level: Option<LogLevel>)
        ensures
            level == self@.log_level(),
    {
        match self.level_override {
            Some(level) => Some(level),
            None => self.code.log_level(),
        }
    }

    /// A creation refused while a drop of the same name is still being purged.
    /// `Retry-After` is a hint: the purge takes as long as the dropped
    /// collection was large.
    pub fn collection_purging(db: &str, name: &str) -> (e: Self)
        ensures
            e@ == collection_purging(db@, name@),
    {
        let mut message = db.to_owned();
        message.append(".");
        message.append(name);
        message.append(
            " was dropped and what it held is still being removed; it can be created again once that finishes",
        );
        let mut e = ApiError::new(503, ErrorCode::CollectionPurging, message.as_str());
        e.retry_after_secs = Some(COLLECTION_PURGING_RETRY_AFTER_SECS);
        e
    }

    /// Over a rate limit.
    ///
    /// The message names no user and no limit: it is returned before
    /// authentication, so anything specific to the attempt would be readable by
    /// whoever triggered it.
    pub fn too_many_requests(retry_after_secs: u64) -> (e: Self)
        ensures
            e@ == too_many_requests(retry_after_secs),
    {
        let mut e = ApiError::new(429, ErrorCode::RateLimited, "too many requests; retry later");
        e.retry_after_secs = Some(retry_after_secs);
        e
    }

    /// The request outlived the server's deadline for it, in whole seconds.
    ///
    /// No `Retry-After`, because the server has no idea when a slower client or
    /// a slower provider will be faster.
    pub fn timeout(after_secs: u64) -> (e: Self)
        ensures
            e@ == timeout(after_secs),
    {
        let mut message = "the request was not completed within ".to_owned();
        push_decimal(&mut message, after_secs);
        message.append(" seconds (server.request_timeout_secs) and was abandoned");
        ApiError::new(503, ErrorCode::Timeout, message.as_str())
    }

    /// A write that waited its whole budget, in whole seconds, for the storage
    /// writer. The same code and status as [`ApiError::timeout`]: to the
    /// client it is the same fact.
    pub fn writer_busy(waited_secs: u64) -> (e: Self)
        ensures
            e@ == writer_busy(waited_secs),
    {
        let mut message = "the write waited ".to_owned();
        push_decimal(&mut message, waited_secs);
        message.append(
            " seconds (server.request_timeout_secs) for the storage writer, which another transaction held throughout, and was abandoned; nothing was written",
        );
        ApiError::new(503, ErrorCode::Timeout, message.as_str())
    }

    pub fn bad_request(message: &str) -> (e: Self)
        ensures
            e@ == bad_request(message@),
    {
        ApiError::new(400, ErrorCode::BadRequest, message)
    }

    pub fn not_found(message: &str) -> (e: Self)
        ensures
            e@ == not_found(message@),
    {
        ApiError::new(404, ErrorCode::NotFound, message)
    }

    pub fn conflict(message: &str) -> (e: Self)
        ensures
            e@ == conflict(message@),
    {
        ApiError::new(409, ErrorCode::Conflict, message)
    }

    /// A conditional write refused because the document is not at the
    /// expected version. Names the current stamp, in its encoded form, so a
    /// client that wants to can skip the re-read.
    pub fn stale(current: Option<&str>) -> (e: Self)
        ensures
            e@ == stale(match current {
                Some(stamp) => Some(stamp@),
                None => None::<Seq<char>>,
            }),
    {
        match current {
            Some(stamp) => {
                let mut message = "the document is at stamp ".to_owned();
                message.append(stamp);
                message.append(
                    " rather than the one `if_stamp` named; re-read it and retry with the current stamp",
                );
                ApiError::new(409, ErrorCode::Stale, message.as_str())
            },
            None => ApiError::new(
                409,
                ErrorCode::Stale,
                "no live document is at the stamp `if_stamp` named; it was deleted or never existed",
            ),
        }
    }

    pub fn unauthorized(message: &str) -> (e: Self)
        ensures
            e@ == unauthorized(message@),
    {
        ApiError::new(401, ErrorCode::Unauthorized, message)
    }

    /// Denied by access control.
    ///
    /// Identical whether or not the target exists: a distinct 404 would let a
    /// caller probe for collections they cannot access.
    pub fn forbidden() -> (e: Self)
        ensures
            e@ == forbidden(),
    {
        ApiError::new(403, ErrorCode::Forbidden, "not authorized for this operation")
    }

    /// A write whose outcome is unknown: see [`ErrorCode::OutcomeUnknown`].
    pub fn outcome_unknown() -> (e: Self)
        ensures
            e@ == outcome_unknown(),
    {
        ApiError::new(
            500,
            ErrorCode::OutcomeUnknown,
            "the write reached the storage engine's durability step and then failed, so it may or may not have been applied; if it was, it replicates. Read it back before sending it again, unless the write is idempotent",
        )
    }

    /// A write this node did not begin, because it is stopping for `reason`.
    pub fn node_stopping(reason: &str) -> (e: Self)
        ensures
            e@ == node_stopping(reason@),
    {
        let mut message =
            "this node did not begin the write because it is shutting down (".to_owned();
        message.append(reason);
        message.append("); nothing was written. Send it to another member");
        let mut e = ApiError::new(503, ErrorCode::Internal, message.as_str());
        e.level_override = Some(LogLevel::Warn);
        e
    }

    pub fn internal(message: &str) -> (e: Self)
        ensures
            e@ == internal(message@),
    {
        ApiError::new(500, ErrorCode::Internal, message)
    }
}

/// What went wrong in the data model, told apart as far as an answer needs.
#[derive(Clone, Copy, Debug, PartialEq, Eq, Structural)]
pub enum CoreErrorKind {
    CollectionNotFound,
    DatabaseNotFound,
    DocumentNotFound,
    CollectionExists,
    IndexExists,
    DuplicateKey,
    UniqueViolation,
    Unsupported,
    InvalidName,
    InvalidQuery,
    InvalidUpdate,
    InvalidDocumentId,
    UnsupportedOperator,
    MalformedResumeToken,
    MalformedCursor,
    MalformedStamp,
    ResumeTokenExpired,
    Bson,
    Serialization,
}

/// A data model error and the text that describes it.
#[derive(Debug)]
pub struct CoreError {
    pub kind: CoreErrorKind,
    pub text: String,
}

/// Why a node stopped taking writes.
#[derive(Clone, Copy, Debug, PartialEq, Eq, Structural)]
pub enum StopReason {
    /// The drain deadline of a shutdown passed.
    DrainDeadline,
    /// The storage failed.
    StorageFailed,
}

/// What a request that commits in more than one transaction left behind.
#[derive(Debug)]
#[allow(inconsistent_fields)]
pub enum Applied {
    Modify { matched: u64, modified: u64, commits: u64, in_doubt: u64 },
    DropDatabase { dropped: Vec<String>, in_doubt: Option<String> },
}

/// A storage engine's failure.
#[derive(Debug)]
pub enum StorageError {
    Core(CoreError),
    /// A conditional write that found the document at another stamp, given
    /// in its encoded form, or found no document.
    Stale { current: Option<String> },
    WriterBusy { waited_secs: u64 },
    CollectionPurging { db: String, name: String },
    OutcomeUnknown,
    PartiallyApplied { applied: Applied, cause: Box<StorageError> },
    /// The node is stopping, and the text that describes why.
    Stopping { reason: StopReason, text: String },
    /// Anything else: none of it is told to the caller.
    Other,
}

/// What went wrong in authentication or authorization.
#[derive(Clone, Copy, Debug, PartialEq, Eq, Structural)]
pub enum AuthErrorKind {
    InvalidCredentials,
    InvalidToken,
    TokenExpired,
    UnknownSigningKey,
    Forbidden,
    UserNotFound,
    RoleNotFound,
    UserExists,
    RoleExists,
    LastUser,
    LastEnabledUser,
    WeakSecret,
    PreviousSecretIsCurrent,
    AdminNotFederatable,
    EmptyRoleMapping,
    InvalidResourceIdentifier,
    Hashing,
    TokenIssue,
}

/// An authentication or authorization failure.
#[derive(Debug)]
pub enum AuthError {
    Refused { kind: AuthErrorKind, text: String },
    Storage(StorageError),
}

/// How a data model error is answered.
pub open spec fn core_refusal(e: CoreError) -> ApiErrorView {
    let text = e.text@;
    match e.kind {
        CoreErrorKind::CollectionNotFound
        | CoreErrorKind::DatabaseNotFound
        | CoreErrorKind::DocumentNotFound => not_found(text),
        CoreErrorKind::CollectionExists | CoreErrorKind::IndexExists => conflict(text),
        CoreErrorKind::DuplicateKey => refusal(409, ErrorCode::DuplicateKey, text),
        CoreErrorKind::UniqueViolation => refusal(409, ErrorCode::UniqueViolation, text),
        CoreErrorKind::Unsupported => refusal(501, ErrorCode::NotImplemented, text),
        CoreErrorKind::ResumeTokenExpired => refusal(410, ErrorCode::ResumeTokenExpired, text),
        CoreErrorKind::Bson | CoreErrorKind::Serialization => internal(text),
        _ => bad_request(text),
    }
}

/// How a storage failure is answered.
pub open spec fn storage_refusal(e: StorageError) -> ApiErrorView
    decreases e, 0nat,
{
    match e {
        StorageError::Core(inner) => core_refusal(inner),
        StorageError::Stale { current } => stale(
            match current {
                Some(stamp) => Some(stamp@),
                None => None,
            },
        ),
        StorageError::WriterBusy { waited_secs } => writer_busy(waited_secs),
        StorageError::CollectionPurging { db, name } => collection_purging(db@, name@),
        StorageError::OutcomeUnknown => outcome_unknown(),
        StorageError::PartiallyApplied { applied, cause } => partially_applied(applied, *cause),
        StorageError::Stopping { reason, text } => node_stopping(text@),
        StorageError::Other => internal("storage failure"@),
    }
}

/// What a partial answer says stopped the request: a code, a message, and
/// the level it is logged at.
pub open spec fn stopping_cause(cause: StorageError) -> (Seq<char>, Seq<char>, LogLevel)
    decreases cause, 1nat,
{
    match cause {
        StorageError::Stopping { reason: StopReason::DrainDeadline, text } => (
            "stopping"@,
            text@,
            LogLevel::Warn,
        ),
        StorageError::Stopping { reason: StopReason::StorageFailed, text } => (
            "storage_failed"@,
            text@,
            LogLevel::Error,
        ),
        _ => {
            let answer = storage_refusal(cause);
            let level = if 500 <= answer.status < 600 {
                LogLevel::Error
            } else {
                LogLevel::Warn
            };
            (answer.code.word(), answer.message, level)
        },
    }
}

/// What a partial answer says landed, in words.
pub open spec fn landed_text(applied: Applied) -> Seq<char> {
    match applied {
        Applied::Modify { matched, modified, commits, in_doubt } => decimal(matched as nat)
            + " matching documents in "@ + decimal(commits as nat)
            + " commits were written, and "@ + decimal(in_doubt as nat) + " more may have been"@,
        Applied::DropDatabase { dropped, in_doubt } => decimal(dropped@.len())
            + " collections were dropped"@ + match in_doubt {
            Some(name) => ", and "@ + name@ + " may have been"@,
            None => Seq::empty(),
        },
    }
}

/// A number of things as a JSON value.
pub open spec fn count(n: u64) -> JsonView {
    JsonView::Number(JsonNumber::PosInt(n))
}

/// What a partial answer says landed, as fields.
pub open spec fn landed_fields(applied: Applied) -> JsonView {
    match applied {
        Applied::Modify { matched, modified, commits, in_doubt } => JsonView::Object(
            seq![
                ("matched"@, count(matched)),
                ("modified"@, count(modified)),
                ("commits"@, count(commits)),
                ("in_doubt"@, count(in_doubt)),
            ],
        ),
        Applied::DropDatabase { dropped, in_doubt } => JsonView::Object(
            seq![
                (
                    "dropped"@,
                    JsonView::Array(
                        Seq::new(dropped@.len(), |i: int| JsonView::String(dropped@[i]@)),
                    ),
                ),
                (
                    "in_doubt"@,
                    match in_doubt {
                        Some(name) => JsonView::String(name@),
                        None => JsonView::Null,
                    },
                ),
            ],
        ),
    }
}

/// The answer to a request that stopped part way, from what landed and what
/// stopped it.
pub open spec fn partial_answer(
    applied: Applied,
    cause: (Seq<char>, Seq<char>, LogLevel),
) -> ApiErrorView {
    ApiErrorView {
        extra: Some(
            seq![
                ("applied"@, landed_fields(applied)),
                (
                    "cause"@,
                    JsonView::Object(
                        seq![
                            ("code"@, JsonView::String(cause.0)),
                            ("message"@, JsonView::String(cause.1)),
                        ],
                    ),
                ),
            ],
        ),
        level_override: Some(cause.2),
        ..refusal(
            500,
            ErrorCode::PartiallyApplied,
            "the request was partly applied and then stopped ("@ + cause.0 + ": "@ + cause.1
                + "): "@ + landed_text(applied)
                + ". What was written stands and replicates; read the target back before sending the request again"@,
        )
    }
}

/// The answer to a request that stopped part way.
pub open spec fn partially_applied(applied: Applied, cause: StorageError) -> ApiErrorView
    decreases cause, 2nat,
{
    partial_answer(applied, stopping_cause(cause))
}

/// How an authentication or authorization failure is answered.
pub open spec fn auth_refusal(e: AuthError) -> ApiErrorView {
    match e {
        AuthError::Storage(inner) => storage_refusal(inner),
        AuthError::Refused { kind, text } => match kind {
            AuthErrorKind::InvalidCredentials => unauthorized("invalid username or password"@),
            AuthErrorKind::InvalidToken | AuthErrorKind::TokenExpired => unauthorized(text@),
            AuthErrorKind::UnknownSigningKey => unauthorized("authentication token is invalid"@),
            AuthErrorKind::Forbidden => forbidden(),
            AuthErrorKind::UserNotFound | AuthErrorKind::RoleNotFound => not_found(text@),
            AuthErrorKind::UserExists
            | AuthErrorKind::RoleExists
            | AuthErrorKind::LastUser
            | AuthErrorKind::LastEnabledUser => conflict(text@),
            AuthErrorKind::Hashing | AuthErrorKind::TokenIssue => internal(
                "authentication failure"@,
            ),
            _ => bad_request(text@),
        },
    }
}

impl ApiError {
    /// The answer to a data model error.
    pub fn from_core(e: CoreError) -> (answer: Self)
        ensures
            answer@ == core_refusal(e),
    {
        let text = e.text.as_str();
        match e.kind {
            CoreErrorKind::CollectionNotFound
            | CoreErrorKind::DatabaseNotFound
            | CoreErrorKind::DocumentNotFound => ApiError::not_found(text),
            CoreErrorKind::CollectionExists
            | CoreErrorKind::IndexExists => ApiError::conflict(text),
            CoreErrorKind::DuplicateKey => ApiError::new(409, ErrorCode::DuplicateKey, text),
            CoreErrorKind::UniqueViolation => ApiError::new(409, ErrorCode::UniqueViolation, text),
            CoreErrorKind::Unsupported => ApiError::new(501, ErrorCode::NotImplemented, text),
            CoreErrorKind::InvalidName
            | CoreErrorKind::InvalidQuery
            | CoreErrorKind::InvalidUpdate
            | CoreErrorKind::InvalidDocumentId
            | CoreErrorKind::UnsupportedOperator
            | CoreErrorKind::MalformedResumeToken
            | CoreErrorKind::MalformedCursor
            | CoreErrorKind::MalformedStamp => ApiError::bad_request(text),
            CoreErrorKind::ResumeTokenExpired => ApiError::new(
                410,
                ErrorCode::ResumeTokenExpired,
                text,
            ),
            CoreErrorKind::Bson | CoreErrorKind::Serialization => ApiError::internal(text),
        }
    }

    /// The answer to a storage failure. One that is not a refusal by name
    /// says nothing of its cause.
    pub fn from_storage(e: StorageError) -> (answer: Self)
        ensures
            answer@ == storage_refusal(e),
        decreases e, 0nat,
    {
        match e {
            StorageError::Core(inner) => ApiError::from_core(inner),
            StorageError::Stale { current } => match &current {
                Some(stamp) => ApiError::stale(Some(stamp.as_str())),
                None => ApiError::stale(None),
            },
            StorageError::WriterBusy { waited_secs } => ApiError::writer_busy(waited_secs),
            StorageError::CollectionPurging { db, name } => ApiError::collection_purging(
                db.as_str(),
                name.as_str(),
            ),
            StorageError::OutcomeUnknown => ApiError::outcome_unknown(),
            StorageError::PartiallyApplied { applied, cause } => ApiError::partially_applied(
                &applied,
                *cause,
            ),
            StorageError::Stopping { reason, text } => ApiError::node_stopping(text.as_str()),
            StorageError::Other => ApiError::internal("storage failure"),
        }
    }

    /// A request that commits in more than one transaction, stopped after its
    /// first commit: what landed, and why the rest did not.
    ///
    /// Logged by whose fault the stop is. A shutdown's drain deadline and a
    /// refusal that is the caller's are a warning; everything else is an error.
    pub fn partially_applied(applied: &Applied, cause: StorageError) -> (answer: Self)
        ensures
            answer@ == partially_applied(*applied, cause),
        decreases cause, 1nat,
    {
        let ghost stopped = stopping_cause(cause);
        let (cause_code, cause_message, level): (&'static str, String, LogLevel) = match cause {
            StorageError::Stopping { reason, text } => match reason {
                StopReason::DrainDeadline => ("stopping", text, LogLevel::Warn),
                StopReason::StorageFailed => ("storage_failed", text, LogLevel::Error),
            },
            other => {
                let mapped = ApiError::from_storage(other);
                let level = if 500 <= mapped.status && mapped.status < 600 {
                    LogLevel::Error
                } else {
                    LogLevel::Warn
                };
                (mapped.code.as_str(), mapped.message, level)
            },
        };
        assert(stopped == (cause_code@, cause_message@, level));
        let what = landed_words(applied);
        let mut message = "the request was partly applied and then stopped (".to_owned();
        message.append(cause_code);
        message.append(": ");
        message.append(cause_message.as_str());
        message.append("): ");
        message.append(what.as_str());
        message.append(
            ". What was written stands and replicates; read the target back before sending the request again",
        );
        let cause_fields: Vec<(String, Json)> = vec![
            ("code".to_owned(), Json::String(cause_code.to_owned())),
            ("message".to_owned(), Json::String(cause_message)),
        ];
        let extra: Vec<(String, Json)> = vec![
            ("applied".to_owned(), landed_json(applied)),
            ("cause".to_owned(), Json::Object(cause_fields)),
        ];
        let mut e = ApiError::new(500, ErrorCode::PartiallyApplied, message.as_str());
        e.level_override = Some(level);
        proof {
            broadcast use crate::json::json_view;

            let fields = partial_answer(*applied, stopped).extra->0;
            assert(json_members(cause_fields@) =~= fields[1].1->Object_0);
            assert(json_members(extra@) =~= fields);
        }
        e.extra = Some(extra);
        e
    }

    /// The answer to an authentication or authorization failure.
    pub fn from_auth(e: AuthError) -> (answer: Self)
        ensures
            answer@ == auth_refusal(e),
    {
        match e {
            AuthError::Storage(inner) => ApiError::from_storage(inner),
            AuthError::Refused { kind, text } => match kind {
                AuthErrorKind::InvalidCredentials => ApiError::unauthorized(
                    "invalid username or password",
                ),
                AuthErrorKind::InvalidToken | AuthErrorKind::TokenExpired => ApiError::unauthorized(
                    text.as_str(),
                ),
                // Which key a token names is not the caller's to learn.
                AuthErrorKind::UnknownSigningKey => ApiError::unauthorized(
                    "authentication token is invalid",
                ),
                AuthErrorKind::Forbidden => ApiError::forbidden(),
                AuthErrorKind::UserNotFound | AuthErrorKind::RoleNotFound => ApiError::not_found(
                    text.as_str(),
                ),
                AuthErrorKind::UserExists
                | AuthErrorKind::RoleExists
                | AuthErrorKind::LastUser
                | AuthErrorKind::LastEnabledUser => ApiError::conflict(text.as_str()),
                AuthErrorKind::WeakSecret
                | AuthErrorKind::PreviousSecretIsCurrent
                | AuthErrorKind::AdminNotFederatable
                | AuthErrorKind::EmptyRoleMapping
                | AuthErrorKind::InvalidResourceIdentifier => ApiError::bad_request(text.as_str()),
                AuthErrorKind::Hashing | AuthErrorKind::TokenIssue => ApiError::internal(
                    "authentication failure",
                ),
            },
        }
    }
}

/// What landed, in words.
fn landed_words(applied: &Applied) -> (words: String)
    ensures
        words@ == landed_text(*applied),
{
    let mut words = String::new();
    match applied {
        Applied::Modify { matched, modified, commits, in_doubt } => {
            push_decimal(&mut words, *matched);
            words.append(" matching documents in ");
            push_decimal(&mut words, *commits);
            words.append(" commits were written, and ");
            push_decimal(&mut words, *in_doubt);
            words.append(" more may have been");
        },
        Applied::DropDatabase { dropped, in_doubt } => {
            push_decimal(&mut words, dropped.len() as u64);
            words.append(" collections were dropped");
            match in_doubt {
                Some(name) => {
                    let ghost before = words@;
                    words.append(", and ");
                    words.append(name.as_str());
                    words.append(" may have been");
                    assert(words@ =~= before + (", and "@ + name@ + " may have been"@));
                },
                None => {},
            }
        },
    }
    assert(words@ =~= landed_text(*applied));
    words
}

/// What landed, as fields.
fn landed_json(applied: &Applied) -> (fields: Json)
    ensures
        fields@ == landed_fields(*applied),
{
    broadcast use crate::json::json_view;

    match applied {
        Applied::Modify { matched, modified, commits, in_doubt } => {
            let members: Vec<(String, Json)> = vec![
                ("matched".to_owned(), Json::Number(JsonNumber::PosInt(*matched))),
                ("modified".to_owned(), Json::Number(JsonNumber::PosInt(*modified))),
                ("commits".to_owned(), Json::Number(JsonNumber::PosInt(*commits))),
                ("in_doubt".to_owned(), Json::Number(JsonNumber::PosInt(*in_doubt))),
            ];
            assert(json_members(members@) =~= landed_fields(*applied)->Object_0);
            Json::Object(members)
        },
        Applied::DropDatabase { dropped, in_doubt } => {
            let mut names: Vec<Json> = Vec::new();
            let mut i: usize = 0;
            while i < dropped.len()
                invariant
                    i <= dropped.len(),
                    names@.len() == i,
                    forall|k: int|
                        0 <= k < i ==> (#[trigger] names@[k])@ == JsonView::String(dropped@[k]@),
                decreases dropped.len() - i,
            {
                names.push(Json::String(dropped[i].clone()));
                i = i + 1;
            }
            let doubt = match in_doubt {
                Some(name) => Json::String(name.clone()),
                None => Json::Null,
            };
            let ghost listed = names@;
            let members: Vec<(String, Json)> = vec![
                ("dropped".to_owned(), Json::Array(names)),
                ("in_doubt".to_owned(), doubt),
            ];
            proof {
                let expected = landed_fields(*applied)->Object_0;
                assert(json_items(listed) =~= expected[0].1->Array_0);
                assert(json_members(members@) =~= expected);
            }
            Json::Object(members)
        },
    }
}

/// An error as it leaves: the response, and the level of the line logged of it.
#[derive(Debug)]
pub struct ErrorResponse {
    pub status: u16,
    pub body: Json,
    /// The value of the `Retry-After` header.
    pub retry_after: Option<String>,
    /// Handed to the challenge layer beside the response.
    pub challenge: Option<ChallengeDescription>,
    pub log: Option<LogLevel>,
}

/// `members`, then those of `extra` whose names are not there yet.
pub open spec fn add_absent<V>(
    members: Seq<(Seq<char>, V)>,
    extra: Seq<(Seq<char>, V)>,
) -> Seq<(Seq<char>, V)>
    decreases extra.len(),
{
    if extra.len() == 0 {
        members
    } else {
        let so_far = add_absent(members, extra.drop_last());
        if lookup(so_far, extra.last().0) is Some {
            so_far
        } else {
            so_far.push(extra.last())
        }
    }
}

/// The error envelope: `error`, `message` and `retry`, then the extra fields.
pub open spec fn envelope(e: ApiErrorView) -> Seq<(Seq<char>, JsonView)> {
    let fields = seq![
        ("error"@, JsonView::String(e.code.word())),
        ("message"@, JsonView::String(e.message)),
        ("retry"@, JsonView::String(e.retry().word())),
    ];
    match e.extra {
        Some(extra) => add_absent(fields, extra),
        None => fields,
    }
}

/// What an error's response is made of.
impl ApiError {
    /// The response: the envelope under the status, a `Retry-After` where the
    /// server knows when to come back, and the level to log at.
    pub fn into_response(self) -> (response: ErrorResponse)
        ensures
            response.status == self.status,
            response.body@ == JsonView::Object(envelope(self@)),
            response.retry_after is Some <==> self.retry_after_secs is Some,
            response.retry_after matches Some(text) ==> text@ == decimal(
                self.retry_after_secs->0 as nat,
            ),
            response.challenge is Some <==> self.challenge_description is Some,
            response.challenge matches Some(c) ==> c.0@ == self.challenge_description->0@,
            response.log == self@.log_level(),
    {
        broadcast use crate::json::json_view;

        let ghost answer = self@;
        let log = self.log_level();
        let retry = self.retry();
        let mut fields: Vec<(String, Json)> = vec![
            ("error".to_owned(), Json::String(self.code.as_str().to_owned())),
            ("message".to_owned(), Json::String(self.message)),
            ("retry".to_owned(), Json::String(retry.as_str().to_owned())),
        ];
        let ghost first = json_members(fields@);
        assert(first =~= envelope(ApiErrorView { extra: None, ..answer }));
        match self.extra {
            Some(members) => {
                let mut extra = members;
                let ghost all = json_members(extra@);
                let ghost mut taken: int = 0;
                while extra.len() > 0
                    invariant
                        0 <= taken <= all.len(),
                        json_members(extra@) =~= all.skip(taken),
                        json_members(fields@) == add_absent(first, all.take(taken)),
                    decreases extra.len(),
                {
                    let ghost rest = extra@;
                    assert(json_members(rest).len() == all.skip(taken).len());
                    let (key, value) = extra.remove(0);
                    proof {
                        assert(all.skip(taken)[0] == json_members(rest)[0]);
                        assert(all[taken] == (key@, value@));
                        assert(all.take(taken + 1).drop_last() =~= all.take(taken));
                        assert(json_members(extra@) =~= all.skip(taken + 1)) by {
                            assert forall|i: int| 0 <= i < extra@.len() implies json_members(
                                extra@,
                            )[i] == all.skip(taken + 1)[i] by {
                                assert(all.skip(taken)[i + 1] == json_members(rest)[i + 1]);
                            }
                        }
                        lemma_json_key_index(fields@, key@);
                        lemma_key_index(json_members(fields@), key@);
                        taken = taken + 1;
                    }
                    let ghost before = fields@;
                    if find_key(&fields, key.as_str()) == fields.len() {
                        fields.push((key, value));
                        assert(json_members(fields@) =~= json_members(before).push(
                            (key@, value@),
                        ));
                    }
                }
                assert(all.take(taken) =~= all);
            },
            None => {},
        }
        let retry_after = match self.retry_after_secs {
            Some(secs) => Some(crate::text::decimal_text(secs)),
            None => None,
        };
        let challenge = match self.challenge_description {
            Some(description) => Some(ChallengeDescription(description)),
            None => None,
        };
        ErrorResponse { status: self.status, body: Json::Object(fields), retry_after, challenge, log }
    }

    /// A request body that could not be read, answered in the envelope: the
    /// status it was refused with, and a stable code.
    pub fn from_body_rejection(status: u16, text: &str) -> (e: Self)
        ensures
            e@ == refusal(
                status,
                if status == 413 {
                    ErrorCode::PayloadTooLarge
                } else if status == 415 {
                    ErrorCode::UnsupportedMediaType
                } else {
                    ErrorCode::BadRequest
                },
                text@,
            ),
    {
        let code = match status {
            413 => ErrorCode::PayloadTooLarge,
            415 => ErrorCode::UnsupportedMediaType,
            _ => ErrorCode::BadRequest,
        };
        ApiError::new(status, code, text)
    }

    /// A query string that could not be read: a parameter that the route does not
    /// define, or one whose value is not the type it takes. The text names the
    /// parameter.
    pub fn from_query_rejection(text: &str) -> (e: Self)
        ensures
            e@ == bad_request(text@),
    {
        ApiError::bad_request(text)
    }

    /// A request that is no upgrade to a socket: the status it was refused with,
    /// and the caller's to fix whatever that is.
    pub fn from_upgrade_rejection(status: u16, text: &str) -> (e: Self)
        ensures
            e@ == refusal(status, ErrorCode::BadRequest, text@),
    {
        ApiError::new(status, ErrorCode::BadRequest, text)
    }
}

/// Whatever extra fields an error carries, its envelope still opens with its
/// own `error`, `message` and `retry`: an extra field never takes the place of
/// one of the three.
pub proof fn extra_fields_displace_nothing(e: ApiErrorView)
    ensures
        envelope(e).len() >= 3,
        envelope(e).take(3) == envelope(ApiErrorView { extra: None, ..e }),
        lookup(envelope(e), "error"@) == Some(JsonView::String(e.code.word())),
        lookup(envelope(e), "message"@) == Some(JsonView::String(e.message)),
        lookup(envelope(e), "retry"@) == Some(JsonView::String(e.retry().word())),
{
    let fields = envelope(ApiErrorView { extra: None, ..e });
    if let Some(extra) = e.extra {
        lemma_add_absent_keeps(fields, extra);
    }
    let all = envelope(e);
    assert(all.take(3) =~= fields);
    reveal_strlit("error");
    reveal_strlit("message");
    reveal_strlit("retry");
    assert(all[0] == all.take(3)[0] && all[1] == all.take(3)[1] && all[2] == all.take(3)[2]);
    assert("error"@.len() == 5 && "message"@.len() == 7 && "retry"@.len() == 5);
    assert("error"@[0] != "retry"@[0]);
    lemma_key_index_unique(all, "error"@, 0);
    lemma_key_index_unique(all, "message"@, 1);
    lemma_key_index_unique(all, "retry"@, 2);
}

proof fn lemma_add_absent_keeps<V>(members: Seq<(Seq<char>, V)>, extra: Seq<(Seq<char>, V)>)
    ensures
        add_absent(members, extra).len() >= members.len(),
        add_absent(members, extra).take(members.len() as int) =~= members,
    decreases extra.len(),
{
    if extra.len() > 0 {
        lemma_add_absent_keeps(members, extra.drop_last());
    }
}

/// A refused login says the same whatever the cause was, and so does a key the
/// node does not know: neither answer tells a caller what exists.
pub proof fn credential_failures_look_alike(a: String, b: String)
    ensures
        auth_refusal(AuthError::Refused { kind: AuthErrorKind::InvalidCredentials, text: a })
            == auth_refusal(
            AuthError::Refused { kind: AuthErrorKind::InvalidCredentials, text: b },
        ),
        auth_refusal(AuthError::Refused { kind: AuthErrorKind::UnknownSigningKey, text: a })
            == auth_refusal(AuthError::Refused { kind: AuthErrorKind::UnknownSigningKey, text: b }),
        auth_refusal(AuthError::Refused { kind: AuthErrorKind::Forbidden, text: a }) == forbidden(),
{
}

/// No refusal on the token path describes itself in the challenge: every 401
/// challenges alike.
pub proof fn every_refusal_keeps_the_generic_challenge(kind: AuthErrorKind, text: String)
    ensures
        auth_refusal(AuthError::Refused { kind, text }).challenge_description is None,
{
}

/// A write that may have been applied is never answered as one that failed: the
/// client is told to read the target back, whatever stopped the request.
pub proof fn a_write_that_may_have_landed_is_to_be_read_back(applied: Applied, cause: StorageError)
    ensures
        storage_refusal(StorageError::OutcomeUnknown).code == ErrorCode::OutcomeUnknown,
        storage_refusal(StorageError::OutcomeUnknown).retry() == Retry::Verify,
        partially_applied(applied, cause).code == ErrorCode::PartiallyApplied,
        partially_applied(applied, cause).retry() == Retry::Verify,
{
}

/// A refusal the caller caused is logged at no level, unless the instance itself
/// was raised to one: no client can make a node look unhealthy by sending
/// requests that are refused.
pub proof fn a_refusal_the_caller_caused_is_not_logged(e: ApiErrorView)
    requires
        e.level_override is None,
    ensures
        e.log_level() == e.code.default_level(),
        e == forbidden() || e == bad_request(e.message) || e == not_found(e.message) || e
            == unauthorized(e.message) || e == conflict(e.message) ==> e.log_level() is None,
{
}

} // verus!
