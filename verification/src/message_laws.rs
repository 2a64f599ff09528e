//! What a caller or an operator is told, in words.

use vstd::prelude::*;
use vstd::string::*;

use crate::audit::AuditMode;
use crate::dispatch::delivered;
use crate::error::{
    Applied, ApiError, CoreError, CoreErrorKind, ErrorCode, StopReason, StorageError,
};
use crate::exec::pipeline::parse_pipeline;
use crate::exec::refusal_laws::is_fault;
use crate::exec::schema::{
    collection, create_index, drop_database, Held, IndexRequest, IndexSpec,
};
use crate::exec::write::{insert_many, insert_many_failed};
use crate::federation::{Federation, Notice, Verified};
use crate::json::{Document, Json};
use crate::local_login::{LocalLogin, PeerAddr};
use crate::roles::{get_role, Role};
use crate::text::{decimal, quoted};

verus! {

/// A request that waited in vain is told how long, and for what.
pub proof fn a_wait_in_vain_is_told_how_long(secs: u64, late: ApiError, busy: ApiError)
    requires
        call_ensures(ApiError::timeout, (secs,), late),
        call_ensures(ApiError::writer_busy, (secs,), busy),
    ensures
        late.message@ == "the request was not completed within "@ + decimal(secs as nat)
            + " seconds (server.request_timeout_secs) and was abandoned"@,
        busy.message@ == "the write waited "@ + decimal(secs as nat)
            + " seconds (server.request_timeout_secs) for the storage writer, which another transaction held throughout, and was abandoned; nothing was written"@,
{
}

/// A stale write is told the stamp that the document is at, where there is one.
pub proof fn a_stale_write_is_told_the_current_stamp(
    stamp: &str,
    moved: ApiError,
    gone: ApiError,
)
    requires
        call_ensures(ApiError::stale, (Some(stamp),), moved),
        call_ensures(ApiError::stale, (None::<&str>,), gone),
    ensures
        moved.message@ == "the document is at stamp "@ + stamp@
            + " rather than the one `if_stamp` named; re-read it and retry with the current stamp"@,
        gone.message@
            == "no live document is at the stamp `if_stamp` named; it was deleted or never existed"@,
{
}

/// A node that cannot serve a write says why, and what became of it.
pub proof fn a_node_that_cannot_write_says_why(
    db: &str,
    name: &str,
    purging: ApiError,
    reason: &str,
    stopping: ApiError,
    unknown: ApiError,
)
    requires
        call_ensures(ApiError::collection_purging, (db, name), purging),
        call_ensures(ApiError::node_stopping, (reason,), stopping),
        call_ensures(ApiError::outcome_unknown, (), unknown),
    ensures
        purging.message@ == db@ + "."@ + name@
            + " was dropped and what it held is still being removed; it can be created again once that finishes"@,
        stopping.message@ == "this node did not begin the write because it is shutting down ("@
            + reason@ + "); nothing was written. Send it to another member"@,
        unknown.message@
            == "the write reached the storage engine's durability step and then failed, so it may or may not have been applied; if it was, it replicates. Read it back before sending it again, unless the write is idempotent"@,
{
}

/// A caller who may not, or who asks too often, is told that and no more.
pub proof fn a_refused_caller_is_told_no_more(denied: ApiError, secs: u64, limited: ApiError)
    requires
        call_ensures(ApiError::forbidden, (), denied),
        call_ensures(ApiError::too_many_requests, (secs,), limited),
    ensures
        denied.message@ == "not authorized for this operation"@,
        limited.message@ == "too many requests; retry later"@,
{
}

/// What landed of a request, in words.
pub open spec fn landed_in_words(applied: Applied) -> Seq<char> {
    match applied {
        Applied::Modify { matched, modified, commits, in_doubt } => decimal(matched as nat)
            + " matching documents in "@ + decimal(commits as nat) + " commits were written, and "@
            + decimal(in_doubt as nat) + " more may have been"@,
        Applied::DropDatabase { dropped, in_doubt: Some(name) } => decimal(dropped@.len())
            + " collections were dropped"@ + (", and "@ + name@ + " may have been"@),
        Applied::DropDatabase { dropped, in_doubt: None } => decimal(dropped@.len())
            + " collections were dropped"@ + Seq::empty(),
    }
}

/// Whether a message says that a request stopped halfway for this cause.
pub open spec fn says_halfway(
    message: Seq<char>,
    code: Seq<char>,
    cause: Seq<char>,
    applied: Applied,
) -> bool {
    message == "the request was partly applied and then stopped ("@ + code + ": "@ + cause
        + "): "@ + landed_in_words(applied)
        + ". What was written stands and replicates; read the target back before sending the request again"@
}

/// A request that stopped halfway is told why and what landed, in words too.
pub proof fn a_request_that_stopped_halfway_is_told_so(
    applied: Applied,
    cause: StorageError,
    answer: ApiError,
    alone: ApiError,
    word: &'static str,
)
    requires
        call_ensures(ApiError::partially_applied, (&applied, cause), answer),
        call_ensures(ApiError::from_storage, (cause,), alone),
        call_ensures(ErrorCode::as_str, (alone.code,), word),
    ensures
        !(cause is Stopping) ==> says_halfway(answer.message@, word@, alone.message@, applied),
        cause is Stopping && cause->reason == StopReason::DrainDeadline ==> says_halfway(
            answer.message@,
            "stopping"@,
            cause->text@,
            applied,
        ),
        cause is Stopping && cause->reason == StopReason::StorageFailed ==> says_halfway(
            answer.message@,
            "storage_failed"@,
            cause->text@,
            applied,
        ),
{
    assert(crate::error::landed_text(applied) == landed_in_words(applied));
}

/// A collection that peers may have is named in the answer.
pub proof fn a_missing_collection_is_named<M>(
    e: CoreError,
    db: &str,
    coll: &str,
    answer: Result<M, ApiError>,
)
    requires
        e.kind == CoreErrorKind::CollectionNotFound,
        call_ensures(
            collection::<M>,
            (Err::<M, StorageError>(StorageError::Core(e)), true, db, coll),
            answer,
        ),
    ensures
        answer->Err_0.message@ == "collection \""@ + db@ + "\".\""@ + coll@
            + "\" not found on this member; if it was just created, another member has it and this one will within a sync round"@,
{
}

/// A database of the system's own is not dropped, whoever asks.
pub proof fn a_system_database_is_not_dropped(
    db: &str,
    allowed: bool,
    collections: Vec<Held>,
    answer: Result<Vec<u64>, ApiError>,
)
    requires
        call_ensures(drop_database, (db, allowed, &collections), answer),
        db@.len() >= 2,
        db@[0] == '_',
        db@[1] == '_',
    ensures
        answer is Err,
        is_fault(answer->Err_0, db@ + " is a system database and cannot be dropped"@),
{
    reveal_strlit("__");
    assert(db@.subrange(0, 2) =~= "__"@);
}

/// An enforcement of another name is refused by it.
pub proof fn an_unknown_enforcement_is_named(
    spec: IndexSpec,
    request: Result<IndexRequest, ApiError>,
)
    requires
        call_ensures(create_index, (true, spec), request),
        spec.partial_filter_expression is None,
        spec.enforcement is Some,
        spec.enforcement->0@ != "local"@,
        spec.enforcement->0@ != "coordinated"@,
    ensures
        request is Err,
        is_fault(
            request->Err_0,
            "unknown enforcement "@ + quoted(spec.enforcement->0@)
                + ": expected \"local\" or \"coordinated\""@,
        ),
{
}

/// A batch takes a thousand documents, and one more is refused by its number.
pub proof fn a_batch_too_large_is_told_its_size(
    documents: Vec<Json>,
    batch: Result<Vec<Document>, ApiError>,
)
    requires
        call_ensures(insert_many, (&documents,), batch),
        documents@.len() > 1000,
    ensures
        batch is Err,
        is_fault(
            batch->Err_0,
            "a bulk insert takes at most "@ + decimal(1000) + " documents, got "@ + decimal(
                documents@.len(),
            ),
        ),
{
}

/// A batch that the storage refuses is answered as the failure would be alone, behind
/// the place of the document that failed where one did.
pub proof fn a_batch_that_fails_names_the_document(
    i: usize,
    cause: StorageError,
    placed: ApiError,
    whole: ApiError,
    alone: ApiError,
)
    requires
        call_ensures(insert_many_failed, (Some(i), cause), placed),
        call_ensures(insert_many_failed, (None::<usize>, cause), whole),
        call_ensures(ApiError::from_storage, (cause,), alone),
    ensures
        whole@ == alone@,
        placed.message@ == "document at index "@ + decimal(i as nat) + ": "@ + alone.message@,
        placed.status == alone.status,
        placed.code == alone.code,
        placed@.retry_after_secs == alone@.retry_after_secs,
        placed@.extra == alone@.extra,
{
}

/// What is no list of stages is told that it has to be one.
pub proof fn a_pipeline_has_to_be_a_list(
    pipeline: Json,
    stages: Result<Vec<Document>, ApiError>,
)
    requires
        call_ensures(parse_pipeline, (&pipeline,), stages),
        !(pipeline@ is Array),
    ensures
        stages is Err,
        is_fault(stages->Err_0, "pipeline must be an array of stages"@),
{
}

/// A role that is not there is named.
pub proof fn a_missing_role_is_named(name: &str, got: Result<Json, ApiError>)
    requires
        call_ensures(get_role, (name, None::<Role>), got),
    ensures
        got is Err,
        got->Err_0.message@ == "no role "@ + quoted(name@),
{
}

/// A login that is not open says where one can log in.
pub proof fn a_refused_login_says_where_to_go(
    peer: Option<PeerAddr>,
    elsewhere: Result<(), ApiError>,
    off: Result<(), ApiError>,
)
    requires
        call_ensures(LocalLogin::admits, (LocalLogin::LoopbackOnly, peer), elsewhere),
        call_ensures(LocalLogin::admits, (LocalLogin::Disabled, peer), off),
    ensures
        elsewhere is Err ==> elsewhere->Err_0.message@
            == "local login is restricted to loopback connections on this node (auth.local.login = \"loopback_only\"); log in from the node's own host, or through the identity provider"@,
        off is Err && off->Err_0.message@
            == "local login is disabled on this node (auth.local.login = \"disabled\"); authenticate through the identity provider"@,
{
}

/// A mode of another name is refused by it, beside the names there are.
pub proof fn an_unknown_mode_is_named(
    name: &str,
    login: Result<LocalLogin, String>,
    audit: Result<AuditMode, String>,
)
    requires
        call_ensures(LocalLogin::parse, (name,), login),
        call_ensures(AuditMode::parse, (name,), audit),
    ensures
        login is Err ==> login->Err_0@ == "unknown local login mode "@ + quoted(name@)
            + "; expected always, loopback_only or disabled"@,
        audit is Err ==> audit->Err_0@ == "unknown audit mode "@ + quoted(name@)
            + "; expected off, denials, writes or all"@,
{
}

/// A warning about a provider's tokens says how long they last and how long they may.
pub proof fn a_warning_says_how_long_tokens_last(
    f: &mut Federation,
    outcome: Verified,
    now: u64,
    notice: Notice,
)
    requires
        call_ensures(Federation::verify, (f, &outcome, now), notice),
        notice is Warn,
    ensures
        outcome is TokenLifetimeExceeded ==> notice->Warn_0@
            == "the provider is minting access tokens valid for "@ + decimal(
            outcome->lifetime_secs as nat,
        ) + "s, longer than the "@ + decimal(outcome->TokenLifetimeExceeded_max_secs as nat)
            + "s this node accepts; every federated request is being refused. Shorten the provider's access token lifetime for this resource, or raise auth.oidc.max_token_lifetime_secs knowingly"@,
        outcome is TokenLifetimeUnbounded ==> notice->Warn_0@
            == "the provider is minting access tokens with no iat, so their lifetime cannot be checked against the "@
            + decimal(outcome->TokenLifetimeUnbounded_max_secs as nat)
            + "s this node accepts; every federated request is being refused. RFC 9068 §2.2 requires the claim and there is no setting here that waives it"@,
{
}

/// A delivery counts as taken in the two hundreds, and any other answer is passed on.
pub proof fn an_endpoints_answer_is_passed_on(status: u16, text: &str, taken: Result<(), String>)
    requires
        call_ensures(delivered, (status, text), taken),
    ensures
        taken is Ok <==> 200 <= status < 300,
        taken is Err ==> taken->Err_0@ == "endpoint returned "@ + text@,
{
}

} // verus!
