use axum::extract::FromRequest;
use axum::response::IntoResponse;
use kimmy_api::codec::to_text;
use kimmy_api::error::{
    ApiError, Applied, AuthError, AuthErrorKind, CoreError, CoreErrorKind, ErrorCode, LogLevel,
    Retry, StopReason, StorageError,
};
use kimmy_api::json::Json;
use tracing::Level;

fn model(kind: CoreErrorKind, text: &str) -> ApiError {
    ApiError::from_core(CoreError { kind, text: text.to_string() })
}

fn auth(kind: AuthErrorKind, text: &str) -> ApiError {
    ApiError::from_auth(AuthError::Refused { kind, text: text.to_string() })
}

fn member<'a>(members: &'a [(String, Json)], key: &str) -> &'a Json {
    &members.iter().find(|(k, _)| k == key).unwrap().1
}

#[test]
fn every_code_logs_at_the_level_its_actionability_earns() {
    let expected: [(ErrorCode, Option<LogLevel>); 22] = [
        // The caller's, every one, and answered in full by the response.
        (ErrorCode::BadRequest, None),
        (ErrorCode::PayloadTooLarge, None),
        (ErrorCode::UnsupportedMediaType, None),
        (ErrorCode::Unauthorized, None),
        (ErrorCode::Forbidden, None),
        (ErrorCode::NotFound, None),
        (ErrorCode::Conflict, None),
        (ErrorCode::DuplicateKey, None),
        (ErrorCode::UniqueViolation, None),
        (ErrorCode::NoVectors, None),
        (ErrorCode::ResumeTokenExpired, None),
        (ErrorCode::RateLimited, None),
        (ErrorCode::Stale, None),
        (ErrorCode::CollectionPurging, None),
        // Refused on purpose, with no operator action to take.
        (ErrorCode::NotImplemented, Some(LogLevel::Info)),
        // Somebody else's fault, or nobody's; a rise is the finding.
        (ErrorCode::ProviderError, Some(LogLevel::Warn)),
        (ErrorCode::Timeout, Some(LogLevel::Warn)),
        // This node's own state, and the operator's to fix.
        (ErrorCode::Internal, Some(LogLevel::Error)),
        (ErrorCode::OutcomeUnknown, Some(LogLevel::Error)),
        (ErrorCode::PartiallyApplied, Some(LogLevel::Error)),
        (ErrorCode::Misconfigured, Some(LogLevel::Error)),
        (ErrorCode::Snapshot, Some(LogLevel::Error)),
    ];
    assert_eq!(
        expected.len(),
        ErrorCode::ALL.len(),
        "a new code must be given a level here as well as in the match"
    );
    for (code, level) in expected {
        assert_eq!(code.log_level(), level, "{} logs at the wrong level", code.as_str());
    }
}

#[test]
fn no_code_is_logged_below_info() {
    assert_eq!(LogLevel::Error.tracing(), Level::ERROR);
    assert_eq!(LogLevel::Warn.tracing(), Level::WARN);
    assert_eq!(LogLevel::Info.tracing(), Level::INFO);
    assert_eq!(
        [LogLevel::Error.to_string(), LogLevel::Warn.to_string(), LogLevel::Info.to_string()],
        ["ERROR", "WARN", "INFO"],
        "the published table uses these words"
    );

    // `tracing` orders `Level` by verbosity, so "below INFO" is `>` and not `<`.
    assert!(Level::DEBUG > Level::INFO && Level::ERROR < Level::INFO);
    for code in ErrorCode::ALL {
        if let Some(level) = code.log_level() {
            assert!(
                level.tracing() <= Level::INFO,
                "{} maps to {level:?}, which is below INFO",
                code.as_str()
            );
        }
    }
}

#[test]
fn a_refusal_the_caller_caused_writes_no_line_at_all() {
    for code in ErrorCode::ALL.into_iter().filter(|c| c.log_level().is_none()) {
        let error = ApiError::new(400, code, "whatever the caller sent");
        assert_eq!(error.into_response().log, None, "{} must not be logged", code.as_str());
    }
}

#[test]
fn the_log_gate_is_the_codes_level_and_no_longer_the_status_class() {
    let fault = ApiError::internal("the disk");
    assert_eq!(fault.code.as_str(), "internal");
    assert_eq!(fault.into_response().log, Some(LogLevel::Error), "a genuine fault still pages");

    let waited = ApiError::timeout(30);
    assert_eq!(waited.into_response().log, Some(LogLevel::Warn), "visible, not loud");

    let reserved = model(CoreErrorKind::Unsupported, "coordinated unique enforcement");
    assert_eq!(reserved.code.as_str(), "not_implemented");
    assert_eq!(reserved.into_response().log, Some(LogLevel::Info), "not a fault");
}

#[test]
fn an_instance_can_be_louder_than_its_code() {
    let raised =
        ApiError::new(501, ErrorCode::NotImplemented, "no model").at_level(LogLevel::Error);
    assert_eq!(raised.log_level(), Some(LogLevel::Error));
    assert_eq!(
        ErrorCode::NotImplemented.log_level(),
        Some(LogLevel::Info),
        "the default is untouched"
    );
    assert_eq!(raised.into_response().log, Some(LogLevel::Error));
}

#[test]
fn a_body_rejection_keeps_its_status_and_gains_a_stable_code() {
    let runtime = tokio::runtime::Builder::new_current_thread().build().unwrap();
    let rejected = |request: axum::extract::Request| {
        let rejection = runtime
            .block_on(axum::Json::<Vec<serde_json::Value>>::from_request(request, &()))
            .expect_err("the body must be rejected");
        let text = rejection.body_text();
        ApiError::from_body_rejection(rejection.into_response().status().as_u16(), &text)
    };

    let no_content_type = axum::http::Request::builder()
        .method("POST")
        .body(axum::body::Body::from("[]"))
        .unwrap();
    let mapped = rejected(no_content_type);
    assert_eq!(mapped.status, 415);
    assert_eq!(mapped.code, ErrorCode::UnsupportedMediaType);

    // And the ordinary case still lands on the generic code.
    let malformed = axum::http::Request::builder()
        .method("POST")
        .header("content-type", "application/json")
        .body(axum::body::Body::from("{not json"))
        .unwrap();
    assert_eq!(rejected(malformed).code, ErrorCode::BadRequest);
    assert_eq!(
        ApiError::from_body_rejection(413, "too large").code,
        ErrorCode::PayloadTooLarge
    );
}

#[test]
fn a_query_or_an_upgrade_that_cannot_be_read_is_the_callers_to_fix() {
    let e = ApiError::from_query_rejection("unknown field `limt`");
    assert_eq!((e.status, e.code), (400, ErrorCode::BadRequest));
    assert_eq!(e.message, "unknown field `limt`");
    let e = ApiError::from_upgrade_rejection(426, "connection not upgradable");
    assert_eq!((e.status, e.code), (426, ErrorCode::BadRequest));
}

#[test]
fn not_found_and_conflict_map_to_their_status_codes() {
    let e = model(CoreErrorKind::CollectionNotFound, "collection a.b not found");
    assert_eq!(e.status, 404);

    let e = model(CoreErrorKind::DuplicateKey, "1");
    assert_eq!(e.status, 409);
    assert_eq!(e.code, ErrorCode::DuplicateKey);
}

#[test]
fn a_bad_query_is_the_callers_fault() {
    let e = model(CoreErrorKind::InvalidQuery, "nope");
    assert_eq!(e.status, 400);
}

#[test]
fn an_expired_resume_token_is_gone_not_a_generic_error() {
    let e = model(CoreErrorKind::ResumeTokenExpired, "resume token expired");
    assert_eq!(e.status, 410);
    assert_eq!(e.code, ErrorCode::ResumeTokenExpired);
}

#[test]
fn storage_internals_are_not_leaked_to_the_caller() {
    let e = ApiError::from_storage(StorageError::Other);
    assert_eq!(e.status, 500);
    assert!(!e.message.contains("/var/lib"), "internal paths must not reach the client");
    assert_eq!(e.message, "storage failure");
}

#[test]
fn a_write_whose_outcome_is_unknown_is_never_answered_as_failed() {
    let e = ApiError::from_storage(StorageError::OutcomeUnknown);
    assert_eq!(e.status, 500);
    assert_eq!(e.code, ErrorCode::OutcomeUnknown);
    assert_eq!(e.code.as_str(), "outcome_unknown");
    assert_eq!(e.code.retry(), Retry::Verify);
    assert_eq!(e.code.retry().as_str(), "verify");
    assert!(!e.message.contains("/var/lib"), "the cause is logged, not returned");
}

#[test]
fn credential_failures_do_not_distinguish_the_cause() {
    let e = auth(AuthErrorKind::InvalidCredentials, "user not found");
    assert_eq!(e.status, 401);
    assert!(!e.message.to_lowercase().contains("user not found"));
}

#[test]
fn every_token_refusal_keeps_the_generic_challenge() {
    for kind in [AuthErrorKind::TokenExpired, AuthErrorKind::InvalidToken] {
        let e = auth(kind, "authentication token is invalid");
        assert_eq!(e.status, 401);
        assert_eq!(e.code, ErrorCode::Unauthorized);
        assert!(e.challenge_description.is_none(), "{:?}", e.challenge_description);
    }
}

#[test]
fn forbidden_carries_no_detail_about_the_target() {
    let e = ApiError::forbidden();
    assert_eq!(e.status, 403);
    assert!(!e.message.contains("collection"));
}

#[test]
fn a_partial_answer_names_why_the_node_stopped_and_logs_by_whose_fault_it_is() {
    let applied = Applied::Modify { matched: 1, modified: 1, commits: 1, in_doubt: 0 };
    let cause_of = |e: &ApiError| match member(e.extra.as_ref().unwrap(), "cause") {
        Json::Object(cause) => match member(cause, "code") {
            Json::String(code) => code.clone(),
            other => panic!("{other:?}"),
        },
        other => panic!("{other:?}"),
    };
    let stopping = |reason: StopReason, text: &str| StorageError::Stopping {
        reason,
        text: text.to_string(),
    };

    // The shutdown doing its job: `stopping`, not a page.
    let drain = ApiError::partially_applied(
        &applied,
        stopping(StopReason::DrainDeadline, "the shutdown deadline passed"),
    );
    assert_eq!(cause_of(&drain), "stopping");
    assert_eq!(drain.log_level(), Some(LogLevel::Warn));

    // The storage failing is not the shutdown deadline, and is a page.
    let failed = ApiError::partially_applied(
        &applied,
        stopping(StopReason::StorageFailed, "the storage failed"),
    );
    assert_eq!(cause_of(&failed), "storage_failed");
    assert_eq!(failed.log_level(), Some(LogLevel::Error));
    assert!(!failed.message.contains("shutdown deadline"), "{}", failed.message);
}

#[test]
fn a_partial_answer_says_what_landed() {
    let e = ApiError::from_storage(StorageError::PartiallyApplied {
        applied: Applied::DropDatabase {
            dropped: vec!["a".to_string(), "b".to_string()],
            in_doubt: Some("c".to_string()),
        },
        cause: Box::new(StorageError::Other),
    });
    assert_eq!(e.code, ErrorCode::PartiallyApplied);
    assert_eq!(
        e.message,
        "the request was partly applied and then stopped (internal: storage failure): 2 \
         collections were dropped, and c may have been. What was written stands and replicates; \
         read the target back before sending the request again"
    );
    assert_eq!(
        to_text(&e.into_response().body),
        "{\"error\":\"partially_applied\",\"message\":\"the request was partly applied and then \
         stopped (internal: storage failure): 2 collections were dropped, and c may have been. \
         What was written stands and replicates; read the target back before sending the request \
         again\",\"retry\":\"verify\",\"applied\":{\"dropped\":[\"a\",\"b\"],\"in_doubt\":\"c\"},\
         \"cause\":{\"code\":\"internal\",\"message\":\"storage failure\"}}"
    );
}

#[test]
fn an_error_leaves_as_the_envelope_under_its_status() {
    let r = ApiError::too_many_requests(7).into_response();
    assert_eq!(r.status, 429);
    assert_eq!(r.retry_after.as_deref(), Some("7"));
    assert!(r.challenge.is_none());
    assert!(to_text(&r.body).starts_with("{\"error\":\"rate_limited\",\"message\":"));

    let r = ApiError::unauthorized("who are you")
        .with_challenge_description("the token has expired")
        .into_response();
    assert_eq!(r.challenge.unwrap().0, "the token has expired");
    assert_eq!(
        to_text(&r.body),
        "{\"error\":\"unauthorized\",\"message\":\"who are you\",\"retry\":\"no\"}"
    );
}

#[test]
fn an_extra_field_never_takes_the_place_of_the_envelopes_own() {
    let e = ApiError {
        extra: Some(vec![
            ("error".to_string(), Json::Null),
            ("more".to_string(), Json::Bool(true)),
            ("more".to_string(), Json::Bool(false)),
        ]),
        ..ApiError::bad_request("no")
    };
    assert_eq!(
        to_text(&e.into_response().body),
        "{\"error\":\"bad_request\",\"message\":\"no\",\"retry\":\"no\",\"more\":true}"
    );
}

#[test]
fn each_storage_failure_has_its_answer() {
    let busy = ApiError::from_storage(StorageError::WriterBusy { waited_secs: 3 });
    assert_eq!((busy.status, busy.retry()), (503, Retry::Wait));
    let purging = ApiError::from_storage(StorageError::CollectionPurging {
        db: "shop".to_string(),
        name: "orders".to_string(),
    });
    assert_eq!(purging.code, ErrorCode::CollectionPurging);
    assert_eq!(purging.retry_after_secs, Some(5));
    let stale = ApiError::from_storage(StorageError::Stale { current: Some("s1".to_string()) });
    assert_eq!((stale.status, stale.code), (409, ErrorCode::Stale));
    let stopping = ApiError::from_storage(StorageError::Stopping {
        reason: StopReason::DrainDeadline,
        text: "draining".to_string(),
    });
    assert_eq!((stopping.status, stopping.retry()), (503, Retry::Elsewhere));
}

#[test]
fn each_authentication_failure_has_its_answer() {
    let cases = [
        (AuthErrorKind::UnknownSigningKey, 401, ErrorCode::Unauthorized),
        (AuthErrorKind::Forbidden, 403, ErrorCode::Forbidden),
        (AuthErrorKind::UserNotFound, 404, ErrorCode::NotFound),
        (AuthErrorKind::RoleNotFound, 404, ErrorCode::NotFound),
        (AuthErrorKind::UserExists, 409, ErrorCode::Conflict),
        (AuthErrorKind::LastUser, 409, ErrorCode::Conflict),
        (AuthErrorKind::WeakSecret, 400, ErrorCode::BadRequest),
        (AuthErrorKind::Hashing, 500, ErrorCode::Internal),
        (AuthErrorKind::TokenIssue, 500, ErrorCode::Internal),
    ];
    for (kind, status, code) in cases {
        let e = auth(kind, "why");
        assert_eq!((e.status, e.code), (status, code), "{kind:?}");
    }
    assert_eq!(auth(AuthErrorKind::Hashing, "why").message, "authentication failure");
}

#[test]
fn no_two_codes_share_a_wire_string() {
    for a in ErrorCode::ALL {
        for b in ErrorCode::ALL {
            assert_eq!(a == b, a.as_str() == b.as_str());
        }
    }
}
