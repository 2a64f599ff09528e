use kimmy_api::codec::to_text;
use kimmy_api::dispatch::{
    assemble, delivered, envelope, envelope_overhead, event_id, invalidate, judge, load_jobs,
    plan_pass, render, render_without_document, request, settle, sign, summarize, wanted, Backoff,
    Delivery, DispatchOutcome, Facts, Job, Limits, OpKind, OplogEntry, Stamp, Verdict,
    BACKOFF_MAX_MS, BACKOFF_MIN_MS, BATCH, COLLECTED_REASON,
};
use kimmy_api::json::{get_str, Bson, Document, Json};
use kimmy_api::metrics::Metrics;
use kimmy_api::progress::{
    forget_progress, progress_record, union_progress, Delivered, Hlc, ProgressRecord,
    VersionVector,
};

fn entry(kind: OpKind, collection: u64, ms: u64) -> OplogEntry {
    OplogEntry {
        stamp: Stamp {
            hlc: Hlc { wall_ms: ms, logical: 0 },
            time: format!("{ms}.0"),
            node: "n1".to_string(),
        },
        kind,
        collection,
        doc_id: Some(Bson::Int64(1)),
        document: None,
    }
}

fn with_document(ms: u64, text: &str) -> OplogEntry {
    OplogEntry {
        document: Some(vec![("v".to_string(), Bson::String(text.to_string()))]),
        ..entry(OpKind::Insert, 1, ms)
    }
}

fn job() -> Job {
    Job {
        id: "wh_1".to_string(),
        url: "https://example.com/hook".to_string(),
        secret: "secret".to_string(),
        database: "shop".to_string(),
        collection: "orders".to_string(),
        collection_id: 1,
        operations: vec![],
        invalidated: false,
    }
}

fn facts(scanned: Vec<OplogEntry>) -> Facts {
    Facts {
        progress: VersionVector::new(),
        from: Some(Hlc { wall_ms: 50, logical: 0 }),
        collected_through: None,
        scanned: Some(scanned),
    }
}

fn member<'a>(v: &'a Json, key: &str) -> &'a Json {
    match v {
        Json::Object(members) => &members.iter().find(|(k, _)| k == key).unwrap().1,
        other => panic!("not an object: {other:?}"),
    }
}

fn text(s: &str) -> Json {
    Json::String(s.to_string())
}

#[test]
fn a_signature_covers_the_timestamp_as_well_as_the_body() {
    let a = sign("secret", 1_000, "{}");
    let b = sign("secret", 2_000, "{}");
    assert_ne!(a, b, "the timestamp must be inside the signature");

    assert_ne!(sign("secret", 1_000, "{}"), sign("other", 1_000, "{}"));
    assert_eq!(sign("secret", 1_000, "{}"), sign("secret", 1_000, "{}"));
    assert_eq!(a.len(), 64, "hex-encoded SHA-256");
}

#[test]
fn a_signature_is_the_hex_of_the_code_over_timestamp_and_body() {
    assert_eq!(sign("secret", 1_000, "{}"), "026360fb6284f077f1148b1ae7c62679730497810a6a0321574de01e8b009e7a");
}

#[test]
fn the_secret_never_appears_in_a_signature() {
    let secret = "a-very-recognizable-webhook-secret";
    let signature = sign(secret, 1, "{}");
    assert!(!signature.contains(secret));
}

#[test]
fn an_event_id_is_stable_and_unique() {
    let e = entry(OpKind::Insert, 1, 100);
    assert_eq!(event_id(&e), event_id(&e), "must be stable");
    assert_ne!(event_id(&e), event_id(&entry(OpKind::Insert, 1, 101)));
}

#[test]
fn only_document_changes_are_delivered() {
    for kind in [OpKind::CreateCollection, OpKind::DropIndex, OpKind::UniqueViolation] {
        assert!(!wanted(&entry(kind, 1, 1), 1, &vec![]), "{kind:?} must not be delivered");
    }
    for kind in [OpKind::Insert, OpKind::Update, OpKind::Replace, OpKind::Delete] {
        assert!(wanted(&entry(kind, 1, 1), 1, &vec![]), "{kind:?} should be delivered");
    }
}

#[test]
fn a_subscription_only_sees_its_own_collection() {
    assert!(wanted(&entry(OpKind::Insert, 7, 1), 7, &vec![]));
    assert!(!wanted(&entry(OpKind::Insert, 8, 1), 7, &vec![]));
}

#[test]
fn an_operation_filter_is_honoured_and_empty_means_all() {
    let filter = vec!["insert".to_string(), "delete".to_string()];
    assert!(wanted(&entry(OpKind::Insert, 1, 1), 1, &filter));
    assert!(wanted(&entry(OpKind::Delete, 1, 1), 1, &filter));
    assert!(!wanted(&entry(OpKind::Update, 1, 1), 1, &filter));
    assert!(wanted(&entry(OpKind::Update, 1, 1), 1, &vec![]));
}

#[test]
fn a_rendered_event_carries_what_a_receiver_needs() {
    let rendered = to_text(&render(&entry(OpKind::Insert, 1, 100), "shop", "orders"));
    assert!(rendered.contains("eventId"), "{rendered}");
    assert!(rendered.contains("\"operationType\":\"insert\""), "{rendered}");
    assert!(rendered.contains("documentKey"), "{rendered}");
}

#[test]
fn a_rendered_event_names_its_database_and_collection() {
    let rendered = render(&entry(OpKind::Insert, 1, 100), "shop", "orders");
    assert_eq!(member(&rendered, "database"), &text("shop"));
    assert_eq!(member(&rendered, "collection"), &text("orders"));
}

#[test]
fn backoff_state_does_not_outlive_its_subscription() {
    let mut backoff = Backoff::new();
    backoff.failed("wh_kept", 0);
    backoff.failed("wh_removed", 0);

    backoff.prune(&vec!["wh_kept".to_string()]);

    assert_eq!(backoff.failure_count("wh_kept"), 1, "a live subscription keeps its state");
    assert_eq!(backoff.failure_count("wh_removed"), 0, "a removed one is forgotten");
}

#[test]
fn an_event_is_written_field_by_field() {
    let e = with_document(100, "a");
    assert_eq!(
        to_text(&render(&e, "shop", "orders")),
        "{\"eventId\":\"100.0-n1\",\"operationType\":\"insert\",\"clusterTime\":\"100.0\",\
         \"database\":\"shop\",\"collection\":\"orders\",\"documentKey\":{\"_id\":1},\
         \"fullDocument\":{\"v\":\"a\"}}"
    );
    assert_eq!(
        render_without_document(&e, "shop", "orders"),
        render(&entry(OpKind::Insert, 1, 100), "shop", "orders")
    );
}

#[test]
fn an_envelope_holds_its_subscription_and_its_events() {
    let events = vec![text("a"), text("b")];
    assert_eq!(envelope("wh_1", events), "{\"subscription\":\"wh_1\",\"events\":[\"a\",\"b\"]}");
    assert_eq!(envelope_overhead("wh_1"), "{\"subscription\":\"wh_1\",\"events\":[]}".len());
}

#[test]
fn a_body_of_whole_events_stays_within_the_cap() {
    let entries: Vec<OplogEntry> = (0..20).map(|i| with_document(100 + i, "abcdefgh")).collect();
    let places: Vec<usize> = (0..20).collect();
    for max in [400, 1_000, 2_000, 100_000] {
        let delivery = assemble(&job(), &entries, &places, max);
        assert!(delivery.body.len() <= max, "{} over {max}", delivery.body.len());
        assert!(!delivery.stamps.is_empty());
        assert!(!delivery.body.contains("fullDocumentOmitted"));
        // As many as fit: the next one would not have.
        let taken = delivery.stamps.len();
        if taken < 20 {
            let events = entries[..taken + 1].iter().map(|e| render(e, "shop", "orders"));
            assert!(envelope("wh_1", events.collect()).len() > max);
        }
    }
}

#[test]
fn an_event_too_large_for_the_cap_goes_without_its_document() {
    let entries = vec![with_document(100, &"x".repeat(1_000)), with_document(101, "y")];
    let delivery = assemble(&job(), &entries, &vec![0, 1], 300);
    assert_eq!(delivery.stamps.len(), 1, "the first event alone, so progress is made");
    assert!(delivery.body.contains("\"fullDocumentOmitted\":true"), "{}", delivery.body);
    assert!(delivery.body.contains("webhooks.max_payload_bytes"), "{}", delivery.body);
    assert!(!delivery.body.contains("xxxx"), "{}", delivery.body);
}

#[test]
fn a_batch_is_bounded_by_its_count() {
    let entries: Vec<OplogEntry> =
        (0..100).map(|i| entry(OpKind::Insert, 1, 100 + i)).collect();
    let places: Vec<usize> = (0..100).collect();
    assert_eq!(assemble(&job(), &entries, &places, 1 << 20).stamps.len(), BATCH);
}

#[test]
fn a_request_is_signed_at_the_moment_it_is_sent() {
    let delivery = assemble(&job(), &vec![entry(OpKind::Insert, 1, 100)], &vec![0], 10_000);
    let r = request(&job(), &delivery, 1_234);
    assert_eq!(r.url, "https://example.com/hook");
    assert_eq!(r.event_id, "100.0-n1");
    assert_eq!(r.timestamp, "1234");
    assert_eq!(r.signature, sign("secret", 1_234, &delivery.body));
    assert_eq!(r.body, delivery.body);
}

#[test]
fn only_a_success_status_delivers() {
    assert_eq!(delivered(200, "200 OK"), Ok(()));
    assert_eq!(delivered(299, "299"), Ok(()));
    assert_eq!(
        delivered(302, "302 Found"),
        Err("endpoint returned 302 Found".to_string()),
        "a redirect is not followed"
    );
    assert!(delivered(500, "500 Internal Server Error").is_err());
}

#[test]
fn backoff_doubles_up_to_the_cap_and_a_success_clears_it() {
    let mut backoff = Backoff::new();
    assert!(backoff.ready("wh_1", 0));
    backoff.failed("wh_1", 1_000);
    assert!(!backoff.ready("wh_1", 1_000 + 2 * BACKOFF_MIN_MS - 1));
    assert!(backoff.ready("wh_1", 1_000 + 2 * BACKOFF_MIN_MS));
    backoff.failed("wh_1", 10_000);
    assert!(!backoff.ready("wh_1", 10_000 + 4 * BACKOFF_MIN_MS - 1));
    assert!(backoff.ready("wh_1", 10_000 + 4 * BACKOFF_MIN_MS));
    for _ in 0..40 {
        backoff.failed("wh_1", 20_000);
    }
    assert!(!backoff.ready("wh_1", 20_000 + BACKOFF_MAX_MS - 1));
    assert!(backoff.ready("wh_1", 20_000 + BACKOFF_MAX_MS));
    assert!(backoff.ready("wh_other", 0), "subscriptions do not share a backoff");
    backoff.succeeded("wh_1");
    assert!(backoff.ready("wh_1", 0));
    assert_eq!(backoff.failure_count("wh_1"), 0);
}

fn registered(id: &str) -> Document {
    let field = |k: &str, v: &str| (k.to_string(), Bson::String(v.to_string()));
    vec![
        field("_id", id),
        field("url", "https://example.com/hook"),
        field("secret", "s"),
        field("database", "shop"),
        field("collection", "orders"),
        (
            "operations".to_string(),
            Bson::Array(vec![Bson::String("insert".to_string()), Bson::Int32(1)]),
        ),
    ]
}

#[test]
fn the_registry_gives_the_jobs_and_skips_what_is_none() {
    let mut stopped = registered("wh_2");
    invalidate(&mut stopped, COLLECTED_REASON);
    assert_eq!(get_str(&stopped, "state").unwrap(), "invalidated");
    let broken: Document = vec![("_id".to_string(), Bson::String("wh_3".to_string()))];

    let jobs = load_jobs(&vec![registered("wh_1"), broken, stopped], &vec![7, 8, 9]);
    assert_eq!(jobs.len(), 2);
    assert_eq!(jobs[0].id, "wh_1");
    assert_eq!(jobs[0].collection_id, 7);
    assert_eq!(jobs[0].operations, vec!["insert".to_string()]);
    assert!(!jobs[0].invalidated);
    assert_eq!(jobs[1].id, "wh_2");
    assert_eq!(jobs[1].collection_id, 9);
    assert!(jobs[1].invalidated);
}

#[test]
fn each_subscription_is_judged_by_the_first_thing_that_decides() {
    let limits = Limits::default();
    let read = || facts(vec![entry(OpKind::Insert, 1, 100)]);
    assert!(matches!(judge(&job(), &read(), false, true, &limits, 1_000), Verdict::NotOwner));
    let stopped = Job { invalidated: true, ..job() };
    assert!(matches!(judge(&stopped, &read(), true, true, &limits, 1_000), Verdict::Invalidated));
    let caught_up = Facts { from: None, ..read() };
    assert!(matches!(judge(&job(), &caught_up, true, true, &limits, 1_000), Verdict::CaughtUp));
    assert!(matches!(
        judge(&job(), &read(), true, false, &limits, 1_000),
        Verdict::BackingOff { behind_ms: 950 }
    ));
    let collected =
        Facts { collected_through: Some(Hlc { wall_ms: 60, logical: 0 }), ..read() };
    assert!(matches!(judge(&job(), &collected, true, true, &limits, 1_000), Verdict::Collected));
    let unreadable = Facts { scanned: None, ..read() };
    assert!(matches!(judge(&job(), &unreadable, true, true, &limits, 1_000), Verdict::Unreadable));
    match judge(&job(), &read(), true, true, &limits, 1_000) {
        Verdict::Deliver { behind_ms, delivery } => {
            assert_eq!(behind_ms, 900);
            assert_eq!(delivery.stamps.len(), 1);
        }
        _ => panic!("there is something to deliver"),
    }
}

#[test]
fn entries_of_other_collections_advance_progress_only_on_a_heartbeat() {
    let limits = Limits::default();
    let read = || facts(vec![entry(OpKind::Insert, 2, 100)]);
    match judge(&job(), &read(), true, true, &limits, 1_000) {
        Verdict::Idle { advance } => assert!(advance.is_none(), "too soon"),
        _ => panic!("nothing here is this subscription's"),
    }
    match judge(&job(), &read(), true, true, &limits, 50 + limits.progress_heartbeat_ms) {
        Verdict::Idle { advance } => {
            assert_eq!(advance.unwrap().get("n1"), Hlc { wall_ms: 100, logical: 0 });
        }
        _ => panic!("nothing here is this subscription's"),
    }
}

#[test]
fn a_pass_judges_every_job_and_forgets_removed_subscriptions() {
    let mut backoff = Backoff::new();
    backoff.failed("wh_gone", 0);
    backoff.failed("wh_2", 0);
    let jobs = vec![job(), Job { id: "wh_2".to_string(), ..job() }];
    let read = vec![
        facts(vec![entry(OpKind::Insert, 1, 2_000)]),
        facts(vec![entry(OpKind::Insert, 1, 2_000)]),
    ];
    let me = vec!["n1".to_string()];
    let verdicts =
        plan_pass(&jobs, &read, "n1", &me, &mut backoff, &Limits::default(), 5_000, 10);
    assert!(matches!(verdicts[0], Verdict::Deliver { behind_ms: 3_000, .. }));
    assert!(matches!(verdicts[1], Verdict::BackingOff { behind_ms: 4_950 }));
    assert_eq!(backoff.failure_count("wh_gone"), 0);

    let summary = summarize(&jobs, &verdicts);
    assert_eq!(summary.active, 2);
    assert_eq!(summary.invalidated, 0);
    assert_eq!(summary.backlog_secs, 4);
    assert_eq!(summary.outcome, DispatchOutcome { skipped_backoff: 1, ..Default::default() });
}

#[test]
fn a_settled_delivery_moves_progress_and_a_failed_one_backs_off() {
    let read = facts(vec![entry(OpKind::Insert, 1, 100)]);
    let delivery = assemble(&job(), read.scanned.as_ref().unwrap(), &vec![0], 10_000);
    let mut progress = VersionVector::new();
    let mut backoff = Backoff::new();
    let mut outcome = DispatchOutcome::default();
    let mut metrics = Metrics::new(0);

    let fail: &Delivery = &delivery;
    settle(&job(), fail, false, &mut progress, &mut backoff, &mut outcome, &mut metrics, 0);
    assert_eq!(progress.get("n1"), Hlc::zero());
    assert_eq!((outcome.delivered, outcome.failed), (0, 1));
    assert_eq!(metrics.webhook_failed, 1);
    assert!(!backoff.ready("wh_1", 0));

    settle(&job(), &delivery, true, &mut progress, &mut backoff, &mut outcome, &mut metrics, 0);
    assert_eq!(progress.get("n1"), Hlc { wall_ms: 100, logical: 0 });
    assert_eq!((outcome.delivered, outcome.failed), (1, 1));
    assert_eq!((metrics.webhook_delivered, metrics.webhook_events), (1, 1));
    assert!(backoff.ready("wh_1", 0));

    // What was delivered is not due again.
    let again = Facts { progress, ..facts(vec![entry(OpKind::Insert, 1, 100)]) };
    assert!(matches!(
        judge(&job(), &again, true, true, &Limits::default(), 200),
        Verdict::Idle { advance: None }
    ));
}

#[test]
fn what_a_delivery_leaves_out_goes_with_the_next() {
    let entries = || vec![with_document(100, "first"), with_document(101, "second")];
    let limits = Limits { max_payload_bytes: 300, ..Limits::default() };
    let mut progress = VersionVector::new();
    let mut backoff = Backoff::new();
    let mut outcome = DispatchOutcome::default();
    let mut metrics = Metrics::new(0);
    for expected in ["first", "second"] {
        let read = Facts { progress: progress.duplicate(), ..facts(entries()) };
        match judge(&job(), &read, true, true, &limits, 1_000) {
            Verdict::Deliver { delivery, .. } => {
                assert_eq!(delivery.stamps.len(), 1, "{}", delivery.body);
                assert!(delivery.body.contains(expected), "{}", delivery.body);
                settle(
                    &job(),
                    &delivery,
                    true,
                    &mut progress,
                    &mut backoff,
                    &mut outcome,
                    &mut metrics,
                    0,
                );
            }
            _ => panic!("{expected} is still due"),
        }
    }
    let read = Facts { progress, ..facts(entries()) };
    assert!(matches!(judge(&job(), &read, true, true, &limits, 1_000), Verdict::Idle { .. }));
}

#[test]
fn recorded_progress_reads_back_and_is_forgotten_with_its_subscription() {
    let mut progress = VersionVector::new();
    progress.observe("n1", Hlc { wall_ms: 5, logical: 7 });
    progress.observe("n1", Hlc { wall_ms: 4, logical: 9 });
    let mut elsewhere = VersionVector::new();
    elsewhere.observe("n1", Hlc { wall_ms: 3, logical: 0 });
    elsewhere.observe("n2", Hlc { wall_ms: 8, logical: 0 });
    let records = vec![
        progress_record("wh_1", "n1", &progress),
        progress_record("wh_1", "n2", &elsewhere),
        progress_record("wh_2", "n1", &elsewhere),
    ];
    let union = union_progress(&records, "wh_1");
    assert_eq!(union.get("n1"), Hlc { wall_ms: 5, logical: 7 });
    assert_eq!(union.get("n2"), Hlc { wall_ms: 8, logical: 0 });
    assert_eq!(union.get("n3"), Hlc::zero());
    assert_eq!(forget_progress(&records, "wh_1").len(), 2);
    assert_eq!(forget_progress(&records, "wh_3").len(), 0);
}

#[test]
fn a_record_counts_only_where_it_names_a_node_and_a_reading() {
    let at = |ms| Some(Hlc { wall_ms: ms, logical: 0 });
    let record = ProgressRecord {
        id: Some("wh_1:n1".to_string()),
        delivered: vec![
            Delivered { node: Some("n1".to_string()), hlc: at(3) },
            Delivered { node: None, hlc: at(90) },
            Delivered { node: Some("n2".to_string()), hlc: None },
            Delivered { node: Some("n1".to_string()), hlc: at(7) },
            Delivered { node: Some("n1".to_string()), hlc: at(5) },
        ],
    };
    let nameless = ProgressRecord {
        id: None,
        delivered: vec![Delivered { node: Some("n1".to_string()), hlc: at(99) }],
    };
    let records = vec![record, nameless];
    let union = union_progress(&records, "wh_1");
    assert_eq!(union.get("n1"), Hlc { wall_ms: 7, logical: 0 }, "said twice, the later counts");
    assert_eq!(union.get("n2"), Hlc::zero());
    assert_eq!(union.entries.len(), 1);
    assert_eq!(forget_progress(&records, "wh_1"), vec!["wh_1:n1".to_string()]);
    assert!(Hlc::zero().is_before(&union.get("n1")));
}

#[test]
fn failures_are_counted_from_the_last_success_on() {
    let mut backoff = Backoff::new();
    backoff.failed("wh_1", 0);
    backoff.failed("wh_2", 0);
    backoff.failed("wh_1", 0);
    assert_eq!(backoff.failure_count("wh_1"), 2);
    assert_eq!(backoff.failure_count("wh_2"), 1);
    backoff.succeeded("wh_1");
    backoff.failed("wh_1", 0);
    assert_eq!(backoff.failure_count("wh_1"), 1);
    assert_eq!(backoff.failure_count("wh_2"), 1, "another's success changes nothing");
}

#[test]
fn every_failure_waits_twice_as_long_until_the_cap() {
    let mut backoff = Backoff::new();
    for waits in [4_000, 8_000, 16_000, 32_000, 64_000, 128_000, 256_000, 300_000, 300_000] {
        backoff.failed("wh_1", 1_000);
        assert!(!backoff.ready("wh_1", 1_000 + waits - 1), "{waits}");
        assert!(backoff.ready("wh_1", 1_000 + waits), "{waits}");
    }
}

#[test]
fn a_failure_at_the_end_of_the_clock_still_waits() {
    let mut backoff = Backoff::new();
    backoff.failed("wh_1", u64::MAX);
    assert!(!backoff.ready("wh_1", u64::MAX));
    assert!(backoff.ready("wh_2", u64::MAX));
}

#[test]
fn an_envelope_costs_what_surrounds_its_id() {
    assert_eq!(envelope_overhead("wh_1"), 29 + 6);
    assert_eq!(envelope_overhead("a\"b\n\u{1}"), 29 + 2 + 12);
    assert_eq!(envelope_overhead("\u{e9}"), 29 + 4);
}

#[test]
fn a_string_is_escaped_where_json_asks_for_it() {
    let text = "q\" b\\ \u{8}\t\n\u{c}\r \u{0} \u{1f} / \u{7f} \u{e9}";
    assert_eq!(
        to_text(&Json::String(text.to_string())),
        "\"q\\\" b\\\\ \\b\\t\\n\\f\\r \\u0000 \\u001f / \u{7f} \u{e9}\""
    );
}
