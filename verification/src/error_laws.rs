//! What a client relies on of an error: its status, its code, what it is told to do
//! next, and what it is not told.

use vstd::prelude::*;
use vstd::string::*;

use crate::error::{
    extra_fields_displace_nothing, ApiError, ApiErrorView, Applied, AuthError, AuthErrorKind,
    CoreError, CoreErrorKind, ErrorCode, ErrorResponse, LogLevel, Retry, StopReason, StorageError,
};
use crate::exec::laws::{count_json, has_field};
use crate::json::{lookup, JsonView};
use crate::text::decimal;

verus! {

/// The word a code is sent as.
pub proof fn a_code_is_sent_as_its_word(code: ErrorCode, word: &'static str)
    requires
        call_ensures(ErrorCode::as_str, (code,), word),
    ensures
        code == ErrorCode::BadRequest ==> word@ == "bad_request"@,
        code == ErrorCode::PayloadTooLarge ==> word@ == "payload_too_large"@,
        code == ErrorCode::UnsupportedMediaType ==> word@ == "unsupported_media_type"@,
        code == ErrorCode::Unauthorized ==> word@ == "unauthorized"@,
        code == ErrorCode::Forbidden ==> word@ == "forbidden"@,
        code == ErrorCode::NotFound ==> word@ == "not_found"@,
        code == ErrorCode::Conflict ==> word@ == "conflict"@,
        code == ErrorCode::DuplicateKey ==> word@ == "duplicate_key"@,
        code == ErrorCode::UniqueViolation ==> word@ == "unique_violation"@,
        code == ErrorCode::NoVectors ==> word@ == "no_vectors"@,
        code == ErrorCode::ResumeTokenExpired ==> word@ == "resume_token_expired"@,
        code == ErrorCode::RateLimited ==> word@ == "rate_limited"@,
        code == ErrorCode::Internal ==> word@ == "internal"@,
        code == ErrorCode::Misconfigured ==> word@ == "misconfigured"@,
        code == ErrorCode::Snapshot ==> word@ == "snapshot"@,
        code == ErrorCode::NotImplemented ==> word@ == "not_implemented"@,
        code == ErrorCode::ProviderError ==> word@ == "provider_error"@,
        code == ErrorCode::Stale ==> word@ == "stale"@,
        code == ErrorCode::Timeout ==> word@ == "timeout"@,
        code == ErrorCode::CollectionPurging ==> word@ == "collection_purging"@,
        code == ErrorCode::OutcomeUnknown ==> word@ == "outcome_unknown"@,
        code == ErrorCode::PartiallyApplied ==> word@ == "partially_applied"@,
{
}

/// What a code tells a client to do: wait and send the request again, read its
/// target back first, ask another member, or not to send it again.
pub proof fn a_code_says_what_to_do_next(code: ErrorCode, class: Retry)
    requires
        call_ensures(ErrorCode::retry, (code,), class),
    ensures
        class == Retry::Wait <==> code == ErrorCode::RateLimited || code
            == ErrorCode::ProviderError || code == ErrorCode::Timeout || code
            == ErrorCode::CollectionPurging,
        class == Retry::Verify <==> code == ErrorCode::OutcomeUnknown || code
            == ErrorCode::PartiallyApplied,
        class == Retry::Elsewhere <==> code == ErrorCode::Internal || code
            == ErrorCode::Misconfigured || code == ErrorCode::Snapshot,
{
}

/// The words of what to do next.
pub proof fn a_retry_is_sent_as_its_word(class: Retry, word: &'static str)
    requires
        call_ensures(Retry::as_str, (class,), word),
    ensures
        class == Retry::No ==> word@ == "no"@,
        class == Retry::Wait ==> word@ == "wait"@,
        class == Retry::Elsewhere ==> word@ == "elsewhere"@,
        class == Retry::Verify ==> word@ == "verify"@,
{
}

/// What is logged of a code: this node's own faults as errors, what passes as
/// warnings, and nothing of what the caller caused.
pub proof fn a_code_is_logged_for_whose_it_is(code: ErrorCode, level: Option<LogLevel>)
    requires
        call_ensures(ErrorCode::log_level, (code,), level),
    ensures
        level == Some(LogLevel::Error) <==> code == ErrorCode::Internal || code
            == ErrorCode::OutcomeUnknown || code == ErrorCode::PartiallyApplied || code
            == ErrorCode::Misconfigured || code == ErrorCode::Snapshot,
        level == Some(LogLevel::Warn) <==> code == ErrorCode::ProviderError || code
            == ErrorCode::Timeout,
        level == Some(LogLevel::Info) <==> code == ErrorCode::NotImplemented,
{
}

/// Whether an error has this status and code, and says this.
pub open spec fn is_error(e: ApiError, status: u16, code: ErrorCode, message: Seq<char>) -> bool {
    e.status == status && e.code == code && e.message@ == message
}

/// Whether an error says no more than its status, code and message.
pub open spec fn is_plain(e: ApiError) -> bool {
    &&& e.retry_after_secs is None
    &&& e.retry_override is None
    &&& e.level_override is None
    &&& e.challenge_description is None
    &&& e.extra is None
}

/// Each kind of refusal has its own status and code, and says what it was given.
pub proof fn a_refusal_has_its_own_status(
    message: &str,
    bad: ApiError,
    missing: ApiError,
    conflict: ApiError,
    unauthorized: ApiError,
    forbidden: ApiError,
    internal: ApiError,
)
    requires
        call_ensures(ApiError::bad_request, (message,), bad),
        call_ensures(ApiError::not_found, (message,), missing),
        call_ensures(ApiError::conflict, (message,), conflict),
        call_ensures(ApiError::unauthorized, (message,), unauthorized),
        call_ensures(ApiError::forbidden, (), forbidden),
        call_ensures(ApiError::internal, (message,), internal),
    ensures
        is_error(bad, 400, ErrorCode::BadRequest, message@) && is_plain(bad),
        is_error(missing, 404, ErrorCode::NotFound, message@) && is_plain(missing),
        is_error(conflict, 409, ErrorCode::Conflict, message@) && is_plain(conflict),
        is_error(unauthorized, 401, ErrorCode::Unauthorized, message@) && is_plain(unauthorized),
        forbidden.status == 403 && forbidden.code == ErrorCode::Forbidden && is_plain(forbidden),
        is_error(internal, 500, ErrorCode::Internal, message@) && is_plain(internal),
{
}

/// What a busy or a stopping node answers: a status of the five hundreds or the
/// limiter's, and when to come back where that is known.
pub proof fn a_node_that_cannot_says_when_it_can(
    secs: u64,
    db: &str,
    name: &str,
    reason: &str,
    limited: ApiError,
    timeout: ApiError,
    busy: ApiError,
    purging: ApiError,
    stopping: ApiError,
    unknown: ApiError,
)
    requires
        call_ensures(ApiError::too_many_requests, (secs,), limited),
        call_ensures(ApiError::timeout, (secs,), timeout),
        call_ensures(ApiError::writer_busy, (secs,), busy),
        call_ensures(ApiError::collection_purging, (db, name), purging),
        call_ensures(ApiError::node_stopping, (reason,), stopping),
        call_ensures(ApiError::outcome_unknown, (), unknown),
    ensures
        limited.status == 429 && limited.code == ErrorCode::RateLimited,
        limited.retry_after_secs == Some(secs) && limited@.retry() == Retry::Wait,
        timeout.status == 503 && timeout.code == ErrorCode::Timeout,
        timeout.retry_after_secs is None && timeout@.retry() == Retry::Wait,
        busy.status == 503 && busy.code == ErrorCode::Timeout,
        busy.retry_after_secs is None && busy@.retry() == Retry::Wait,
        purging.status == 503 && purging.code == ErrorCode::CollectionPurging,
        purging.retry_after_secs == Some(5u64) && purging@.retry() == Retry::Wait,
        stopping.status == 503 && stopping.code == ErrorCode::Internal,
        stopping@.retry() == Retry::Elsewhere && stopping@.log_level() == Some(LogLevel::Warn),
        unknown.status == 500 && unknown.code == ErrorCode::OutcomeUnknown,
        unknown@.retry() == Retry::Verify,
{
}

/// A write that found another version than it named conflicts, and is not to be
/// sent again as it is.
pub proof fn a_stale_write_conflicts(current: Option<&str>, e: ApiError)
    requires
        call_ensures(ApiError::stale, (current,), e),
    ensures
        e.status == 409,
        e.code == ErrorCode::Stale,
        e@.retry() == Retry::No,
        is_plain(e),
{
}

/// A failure of the core is answered by its kind, in its own words.
pub proof fn a_core_failure_is_answered_by_its_kind(e: CoreError, answer: ApiError)
    requires
        call_ensures(ApiError::from_core, (e,), answer),
    ensures
        answer.message@ == e.text@,
        is_plain(answer),
        answer.status == 404 && answer.code == ErrorCode::NotFound <==> e.kind
            == CoreErrorKind::CollectionNotFound || e.kind == CoreErrorKind::DatabaseNotFound
            || e.kind == CoreErrorKind::DocumentNotFound,
        answer.status == 409 && answer.code == ErrorCode::Conflict <==> e.kind
            == CoreErrorKind::CollectionExists || e.kind == CoreErrorKind::IndexExists,
        answer.status == 409 && answer.code == ErrorCode::DuplicateKey <==> e.kind
            == CoreErrorKind::DuplicateKey,
        answer.status == 409 && answer.code == ErrorCode::UniqueViolation <==> e.kind
            == CoreErrorKind::UniqueViolation,
        answer.status == 501 && answer.code == ErrorCode::NotImplemented <==> e.kind
            == CoreErrorKind::Unsupported,
        answer.status == 410 && answer.code == ErrorCode::ResumeTokenExpired <==> e.kind
            == CoreErrorKind::ResumeTokenExpired,
        answer.status == 500 && answer.code == ErrorCode::Internal <==> e.kind
            == CoreErrorKind::Bson || e.kind == CoreErrorKind::Serialization,
        answer.status == 400 && answer.code == ErrorCode::BadRequest <==> e.kind
            == CoreErrorKind::InvalidName || e.kind == CoreErrorKind::InvalidQuery || e.kind
            == CoreErrorKind::InvalidUpdate || e.kind == CoreErrorKind::InvalidDocumentId || e.kind
            == CoreErrorKind::UnsupportedOperator || e.kind == CoreErrorKind::MalformedResumeToken
            || e.kind == CoreErrorKind::MalformedCursor || e.kind == CoreErrorKind::MalformedStamp,
{
}

/// A failure of the storage is answered as what it is; of one that is none of the
/// caller's nothing is told.
pub proof fn a_storage_failure_is_answered_as_what_it_is(e: StorageError, answer: ApiError)
    requires
        call_ensures(ApiError::from_storage, (e,), answer),
    ensures
        e is Stale ==> answer.status == 409 && answer.code == ErrorCode::Stale,
        e is WriterBusy ==> answer.status == 503 && answer.code == ErrorCode::Timeout,
        e is CollectionPurging ==> answer.status == 503 && answer.code
            == ErrorCode::CollectionPurging && answer.retry_after_secs == Some(5u64),
        e is OutcomeUnknown ==> answer.status == 500 && answer.code == ErrorCode::OutcomeUnknown,
        e is PartiallyApplied ==> answer.status == 500 && answer.code
            == ErrorCode::PartiallyApplied,
        e is Stopping ==> answer.status == 503 && answer@.retry() == Retry::Elsewhere
            && answer@.log_level() == Some(LogLevel::Warn),
        e == StorageError::Other ==> is_error(
            answer,
            500,
            ErrorCode::Internal,
            "storage failure"@,
        ),
        e is Core ==> answer.message@ == e->Core_0.text@,
{
}

/// A storage failure that carries a core failure is answered as that one is.
pub proof fn a_core_failure_is_answered_alike_wherever_it_comes_from(
    e: CoreError,
    straight: ApiError,
    stored: ApiError,
)
    requires
        call_ensures(ApiError::from_core, (e,), straight),
        call_ensures(ApiError::from_storage, (StorageError::Core(e),), stored),
    ensures
        straight@ == stored@,
{
}

/// A refused login, a token that does not hold, a right that is missing and a name
/// that is not there are told apart by status alone; what was wrong with a password
/// or a signing key is not told.
pub proof fn an_authentication_failure_is_answered_by_its_kind(
    kind: AuthErrorKind,
    text: String,
    answer: ApiError,
)
    requires
        call_ensures(ApiError::from_auth, (AuthError::Refused { kind, text },), answer),
    ensures
        answer.status == 401 <==> kind == AuthErrorKind::InvalidCredentials || kind
            == AuthErrorKind::InvalidToken || kind == AuthErrorKind::TokenExpired || kind
            == AuthErrorKind::UnknownSigningKey,
        answer.status == 403 <==> kind == AuthErrorKind::Forbidden,
        answer.status == 404 <==> kind == AuthErrorKind::UserNotFound || kind
            == AuthErrorKind::RoleNotFound,
        answer.status == 409 <==> kind == AuthErrorKind::UserExists || kind
            == AuthErrorKind::RoleExists || kind == AuthErrorKind::LastUser || kind
            == AuthErrorKind::LastEnabledUser,
        answer.status == 500 <==> kind == AuthErrorKind::Hashing || kind
            == AuthErrorKind::TokenIssue,
        answer.status == 400 <==> kind == AuthErrorKind::WeakSecret || kind
            == AuthErrorKind::PreviousSecretIsCurrent || kind == AuthErrorKind::AdminNotFederatable
            || kind == AuthErrorKind::EmptyRoleMapping || kind
            == AuthErrorKind::InvalidResourceIdentifier,
        answer.status == 401 ==> answer.code == ErrorCode::Unauthorized,
        answer.status == 403 ==> answer.code == ErrorCode::Forbidden,
        answer.status == 404 ==> answer.code == ErrorCode::NotFound && answer.message@ == text@,
        answer.status == 409 ==> answer.code == ErrorCode::Conflict && answer.message@ == text@,
        answer.status == 400 ==> answer.code == ErrorCode::BadRequest && answer.message@ == text@,
        answer.status == 500 ==> answer.code == ErrorCode::Internal && answer.message@
            == "authentication failure"@,
        kind == AuthErrorKind::InvalidCredentials ==> answer.message@
            == "invalid username or password"@,
        kind == AuthErrorKind::UnknownSigningKey ==> answer.message@
            == "authentication token is invalid"@,
        kind == AuthErrorKind::InvalidToken || kind == AuthErrorKind::TokenExpired
            ==> answer.message@ == text@,
{
}

/// A response carries its error's status, code, message and what to do next, its
/// delay as a number of seconds where it has one, and its challenge where it has
/// one.
pub proof fn a_response_carries_its_error(e: ApiError, response: ErrorResponse)
    requires
        call_ensures(ApiError::into_response, (e,), response),
    ensures
        response.status == e.status,
        response.body@ is Object,
        lookup(response.body@->Object_0, "error"@) == Some(JsonView::String(e.code.word())),
        lookup(response.body@->Object_0, "message"@) == Some(JsonView::String(e.message@)),
        e.retry_override is None ==> lookup(response.body@->Object_0, "retry"@) == Some(
            JsonView::String(e.code.retry_class().word()),
        ),
        e.retry_override is Some ==> lookup(response.body@->Object_0, "retry"@) == Some(
            JsonView::String(e.retry_override->0.word()),
        ),
        response.retry_after is Some <==> e.retry_after_secs is Some,
        response.retry_after is Some ==> response.retry_after->0@ == decimal(
            e.retry_after_secs->0 as nat,
        ),
        response.challenge is Some <==> e.challenge_description is Some,
        response.challenge is Some ==> (response.challenge->0).0@ == e.challenge_description->0@,
        e.level_override is Some ==> response.log == e.level_override,
        e.level_override is None ==> response.log == e.code.default_level(),
{
    extra_fields_displace_nothing(e@);
}

/// Whether an error's response says what landed of a request that stopped halfway,
/// and why it stopped.
pub open spec fn says_what_landed(e: ApiErrorView, applied: Applied) -> bool {
    &&& e.extra is Some
    &&& exists|landed: JsonView| #[trigger]
        has_field(JsonView::Object(e.extra->0), "applied"@, landed) && match applied {
            Applied::Modify { matched, modified, commits, in_doubt } => {
                &&& has_field(landed, "matched"@, count_json(matched))
                &&& has_field(landed, "modified"@, count_json(modified))
                &&& has_field(landed, "commits"@, count_json(commits))
                &&& has_field(landed, "in_doubt"@, count_json(in_doubt))
            },
            Applied::DropDatabase { dropped, in_doubt } => {
                &&& has_field(
                    landed,
                    "dropped"@,
                    JsonView::Array(dropped@.map_values(|s: String| JsonView::String(s@))),
                )
                &&& in_doubt is Some ==> has_field(
                    landed,
                    "in_doubt"@,
                    JsonView::String(in_doubt->0@),
                )
                &&& in_doubt is None ==> has_field(landed, "in_doubt"@, JsonView::Null)
            },
        }
}

/// Whether an error's response names this cause.
pub open spec fn names_cause(e: ApiErrorView, code: Seq<char>, message: Seq<char>) -> bool {
    &&& e.extra is Some
    &&& exists|cause: JsonView| #[trigger]
        has_field(JsonView::Object(e.extra->0), "cause"@, cause) && has_field(
            cause,
            "code"@,
            JsonView::String(code),
        ) && has_field(cause, "message"@, JsonView::String(message))
}

/// A request that stopped halfway says what landed and why it stopped: the node's
/// stopping by its reason, and any other cause as it would be answered alone. It is
/// logged as an error where the cause was this node's.
pub proof fn a_request_that_stopped_halfway_says_what_landed(
    applied: Applied,
    cause: StorageError,
    answer: ApiError,
    alone: ApiError,
)
    requires
        call_ensures(ApiError::partially_applied, (&applied, cause), answer),
        call_ensures(ApiError::from_storage, (cause,), alone),
    ensures
        answer.status == 500,
        answer.code == ErrorCode::PartiallyApplied,
        answer@.retry() == Retry::Verify,
        answer@.retry_after_secs is None,
        says_what_landed(answer@, applied),
        !(cause is Stopping) ==> names_cause(answer@, alone.code.word(), alone.message@),
        !(cause is Stopping) ==> answer@.log_level() == Some(
            if 500 <= alone.status && alone.status < 600 {
                LogLevel::Error
            } else {
                LogLevel::Warn
            },
        ),
        cause is Stopping && cause->reason == StopReason::DrainDeadline ==> names_cause(
            answer@,
            "stopping"@,
            cause->text@,
        ) && answer@.log_level() == Some(LogLevel::Warn),
        cause is Stopping && cause->reason == StopReason::StorageFailed ==> names_cause(
            answer@,
            "storage_failed"@,
            cause->text@,
        ) && answer@.log_level() == Some(LogLevel::Error),
{
    let why = crate::error::stopping_cause(cause);
    lemma_partial(answer@, applied, why);
}

proof fn lemma_partial(
    e: ApiErrorView,
    applied: Applied,
    why: (Seq<char>, Seq<char>, LogLevel),
)
    requires
        e == crate::error::partial_answer(applied, why),
    ensures
        says_what_landed(e, applied),
        names_cause(e, why.0, why.1),
{
    reveal_strlit("applied");
    reveal_strlit("cause");
    reveal_strlit("code");
    reveal_strlit("message");
    reveal_strlit("matched");
    reveal_strlit("modified");
    reveal_strlit("commits");
    reveal_strlit("in_doubt");
    reveal_strlit("dropped");
    assert("applied"@.len() == 7 && "cause"@.len() == 5 && "code"@.len() == 4 && "message"@.len()
        == 7);
    assert("matched"@.len() == 7 && "modified"@.len() == 8 && "commits"@.len() == 7
        && "in_doubt"@.len() == 8 && "dropped"@.len() == 7);
    assert("matched"@[0] == 'm' && "commits"@[0] == 'c' && "modified"@[0] == 'm'
        && "in_doubt"@[0] == 'i');
    let extra = JsonView::Object(e.extra->0);
    let m = extra->Object_0;
    assert(m[0].0 == "applied"@ && m[1].0 == "cause"@);
    let landed = m[0].1;
    let cause = m[1].1;
    assert(has_field(extra, "applied"@, landed));
    assert(has_field(extra, "cause"@, cause));
    let c = cause->Object_0;
    assert(c[0].0 == "code"@ && c[1].0 == "message"@);
    let l = landed->Object_0;
    match applied {
        Applied::Modify { matched, modified, commits, in_doubt } => {
            assert(l[0].0 == "matched"@ && l[1].0 == "modified"@ && l[2].0 == "commits"@ && l[3].0
                == "in_doubt"@);
        },
        Applied::DropDatabase { dropped, in_doubt } => {
            assert(l[0].0 == "dropped"@ && l[1].0 == "in_doubt"@);
            assert(l[0].1->Array_0 =~= dropped@.map_values(|s: String| JsonView::String(s@)));
        },
    }
}

/// A body that cannot be read is refused by why it cannot: too large, of another
/// type, or malformed; a query and an upgrade as bad requests.
pub proof fn an_unreadable_request_is_refused_by_why(
    status: u16,
    text: &str,
    body: ApiError,
    query: ApiError,
    upgrade: ApiError,
)
    requires
        call_ensures(ApiError::from_body_rejection, (status, text), body),
        call_ensures(ApiError::from_query_rejection, (text,), query),
        call_ensures(ApiError::from_upgrade_rejection, (status, text), upgrade),
    ensures
        body.status == status && body.message@ == text@ && is_plain(body),
        body.code == ErrorCode::PayloadTooLarge <==> status == 413,
        body.code == ErrorCode::UnsupportedMediaType <==> status == 415,
        body.code == ErrorCode::BadRequest <==> status != 413 && status != 415,
        is_error(query, 400, ErrorCode::BadRequest, text@) && is_plain(query),
        is_error(upgrade, status, ErrorCode::BadRequest, text@) && is_plain(upgrade),
{
}

/// Adding a challenge, a retry or a level to an error changes nothing else of it.
pub proof fn an_addition_changes_nothing_else(
    e: ApiError,
    description: &str,
    retry: Retry,
    level: LogLevel,
    challenged: ApiError,
    retried: ApiError,
    leveled: ApiError,
)
    requires
        call_ensures(ApiError::with_challenge_description, (e, description), challenged),
        call_ensures(ApiError::with_retry, (e, retry), retried),
        call_ensures(ApiError::at_level, (e, level), leveled),
    ensures
        challenged@.challenge_description == Some(description@),
        retried@.retry() == retry,
        leveled@.log_level() == Some(level),
        challenged@.status == e.status && retried@.status == e.status && leveled@.status
            == e.status,
        challenged@.code == e.code && retried@.code == e.code && leveled@.code == e.code,
        challenged@.message == e.message@ && retried@.message == e.message@ && leveled@.message
            == e.message@,
        challenged@.retry() == e@.retry() && leveled@.retry() == e@.retry(),
        challenged@.log_level() == e@.log_level() && retried@.log_level() == e@.log_level(),
        retried@.challenge_description == e@.challenge_description
            && leveled@.challenge_description == e@.challenge_description,
{
}

} // verus!
