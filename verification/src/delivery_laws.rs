//! What a subscriber relies on: which changes reach it, what each event says, and
//! that none is left out.

use vstd::prelude::*;
use vstd::string::*;
use vstd::utf8::encode_utf8;

use crate::codec::{hex_text, hmac_sha256, json_text};
use crate::dispatch::{
    assemble, batch_of, covered, delivered, due, envelope, envelope_of, event_id, events_of,
    fitting, full_event, how_many, how_many_stopped, invalidate, judge, judged, load_jobs,
    plan_pass, render, render_without_document, request, settle, sign, stripped_event,
    subscription_places, summarize, taken, wanted, worst_lag, Backoff, Delivery, DeliveryRequest,
    DispatchOutcome, Facts, Job, Limits, OpKind, OplogEntry, PassSummary, Skip, Stamp, Verdict,
    BACKOFF_MAX_MS, BACKOFF_MIN_MS, BATCH, DELIVERY_TIMEOUT_MS, SCAN, TICK_MS,
};
use crate::exec::laws::{document_json, has_field, lacks_field};
use crate::json::{bson_members, json_of, lookup, text_under, BsonView, Document, Json, JsonView};
use crate::metrics::Metrics;
use crate::ownership::{member_texts, owns};
use crate::progress::{Hlc, VersionVector};
use crate::text::decimal;

verus! {

/// Whether an entry is a change of a document that this operation names.
pub open spec fn is_change_named(kind: OpKind, name: Seq<char>) -> bool {
    ||| kind == OpKind::Insert && name == "insert"@
    ||| kind == OpKind::Update && name == "update"@
    ||| kind == OpKind::Replace && name == "replace"@
    ||| kind == OpKind::Delete && name == "delete"@
}

/// Whether an entry is a change of a document.
pub open spec fn is_document_change(kind: OpKind) -> bool {
    kind == OpKind::Insert || kind == OpKind::Update || kind == OpKind::Replace || kind
        == OpKind::Delete
}

/// Whether a subscription asked for this change: one of its collection, by the name
/// of its operation, or any where it names none.
pub open spec fn asked_for(entry: OplogEntry, collection: u64, operations: Seq<String>) -> bool {
    &&& entry.collection == collection
    &&& is_document_change(entry.kind)
    &&& operations.len() == 0 || exists|i: int|
        0 <= i < operations.len() && is_change_named(entry.kind, (#[trigger] operations[i])@)
}

proof fn lemma_wanted(entry: OplogEntry, collection: u64, operations: Seq<String>)
    ensures
        crate::dispatch::is_wanted(entry, collection, member_texts(operations)) == asked_for(
            entry,
            collection,
            operations,
        ),
{
    let names = member_texts(operations);
    let name = crate::dispatch::operation_name(entry.kind);
    reveal_strlit("insert");
    reveal_strlit("update");
    reveal_strlit("replace");
    reveal_strlit("delete");
    assert("insert"@[0] == 'i' && "update"@[0] == 'u' && "delete"@[0] == 'd' && "replace"@[0]
        == 'r');
    if operations.len() > 0 && name is Some {
        if names.contains(name->0) {
            let i = choose|i: int| 0 <= i < names.len() && names[i] == name->0;
            assert(is_change_named(entry.kind, operations[i]@));
        }
        if asked_for(entry, collection, operations) {
            let i = choose|i: int|
                0 <= i < operations.len() && is_change_named(
                    entry.kind,
                    (#[trigger] operations[i])@,
                );
            assert(names[i] == name->0);
        }
    }
}

/// A subscription gets the changes it asked for: of its collection, and by the
/// names "insert", "update", "replace" and "delete", or all four where it names
/// none. Schema changes and violations are no document's.
pub proof fn a_subscription_gets_what_it_asked_for(
    entry: OplogEntry,
    collection: u64,
    operations: Vec<String>,
    b: bool,
)
    requires
        call_ensures(wanted, (&entry, collection, &operations), b),
    ensures
        b == asked_for(entry, collection, operations@),
{
    lemma_wanted(entry, collection, operations@);
}

/// Whether an event tells of a change: by its id, its operation, its time, its
/// place, and the key of its document.
#[verifier::opaque]
pub open spec fn tells_of(
    event: JsonView,
    entry: OplogEntry,
    database: Seq<char>,
    collection: Seq<char>,
) -> bool {
    &&& has_field(
        event,
        "eventId"@,
        JsonView::String(entry.stamp.time@ + "-"@ + entry.stamp.node@),
    )
    &&& entry.kind == OpKind::Insert ==> has_field(
        event,
        "operationType"@,
        JsonView::String("insert"@),
    )
    &&& entry.kind == OpKind::Update ==> has_field(
        event,
        "operationType"@,
        JsonView::String("update"@),
    )
    &&& entry.kind == OpKind::Replace ==> has_field(
        event,
        "operationType"@,
        JsonView::String("replace"@),
    )
    &&& entry.kind == OpKind::Delete ==> has_field(
        event,
        "operationType"@,
        JsonView::String("delete"@),
    )
    &&& !is_document_change(entry.kind) ==> has_field(
        event,
        "operationType"@,
        JsonView::String("unknown"@),
    )
    &&& has_field(event, "clusterTime"@, JsonView::String(entry.stamp.time@))
    &&& has_field(event, "database"@, JsonView::String(database))
    &&& has_field(event, "collection"@, JsonView::String(collection))
    &&& entry.doc_id is Some ==> has_field(
        event,
        "documentKey"@,
        JsonView::Object(seq![("_id"@, json_of(entry.doc_id->0@))]),
    )
    &&& entry.doc_id is None ==> lacks_field(event, "documentKey"@)
}

/// Whether an event carries the document of a change as the change left it, where
/// it left one.
pub open spec fn carries_document(event: JsonView, entry: OplogEntry) -> bool {
    &&& entry.document is Some ==> has_field(
        event,
        "fullDocument"@,
        document_json(entry.document->0),
    )
    &&& entry.document is None ==> lacks_field(event, "fullDocument"@)
    &&& lacks_field(event, "fullDocumentOmitted"@)
}

/// Whether an event leaves the document out, and says so.
pub open spec fn omits_document(event: JsonView) -> bool {
    &&& lacks_field(event, "fullDocument"@)
    &&& has_field(event, "fullDocumentOmitted"@, JsonView::Bool(true))
}

proof fn lemma_names()
    ensures
        "eventId"@.len() == 7,
        "operationType"@.len() == 13,
        "operationType"@[1] == 'p',
        "clusterTime"@.len() == 11,
        "clusterTime"@[0] == 'c',
        "database"@.len() == 8,
        "collection"@.len() == 10,
        "documentKey"@.len() == 11,
        "documentKey"@[0] == 'd',
        "fullDocument"@.len() == 12,
        "fullDocumentOmitted"@.len() == 19,
        "omittedReason"@.len() == 13,
        "omittedReason"@[1] == 'm',
{
    reveal_strlit("eventId");
    reveal_strlit("operationType");
    reveal_strlit("clusterTime");
    reveal_strlit("database");
    reveal_strlit("collection");
    reveal_strlit("documentKey");
    reveal_strlit("fullDocument");
    reveal_strlit("fullDocumentOmitted");
    reveal_strlit("omittedReason");
}

proof fn lemma_bare(
    m: Seq<(Seq<char>, JsonView)>,
    entry: OplogEntry,
    database: Seq<char>,
    collection: Seq<char>,
)
    requires
        ({
            let bare = crate::dispatch::bare_event(entry, database, collection);
            m.len() >= bare.len() && m.take(bare.len() as int) == bare
        }),
        forall|i: int|
            crate::dispatch::bare_event(entry, database, collection).len() <= i < m.len() ==> {
                ||| (#[trigger] m[i]).0 == "fullDocument"@
                ||| m[i].0 == "fullDocumentOmitted"@
                ||| m[i].0 == "omittedReason"@
            },
    ensures
        tells_of(JsonView::Object(m), entry, database, collection),
{
    reveal(tells_of);
    lemma_names();
    let bare = crate::dispatch::bare_event(entry, database, collection);
    let n = bare.len() as int;
    assert forall|i: int| 0 <= i < n implies m[i] == #[trigger] bare[i] by {
        assert(m.take(n)[i] == m[i]);
    }
    assert(bare[0].0 == "eventId"@ && bare[1].0 == "operationType"@ && bare[2].0
        == "clusterTime"@ && bare[3].0 == "database"@ && bare[4].0 == "collection"@);
    if n > 5 {
        assert(bare[5].0 == "documentKey"@);
        assert(m[5] == bare[5]);
    }
    assert forall|i: int| n <= i < m.len() implies (#[trigger] m[i]).0.len() == 12 || m[i].0.len()
        == 19 || m[i].0 == "omittedReason"@ by {}
    assert(m[0] == bare[0] && m[1] == bare[1] && m[2] == bare[2] && m[3] == bare[3] && m[4]
        == bare[4]);
    let body = JsonView::Object(m);
    assert(body->Object_0[0] == (
        "eventId"@,
        JsonView::String(entry.stamp.time@ + "-"@ + entry.stamp.node@),
    ));
}

proof fn lemma_full(entry: OplogEntry, database: Seq<char>, collection: Seq<char>)
    ensures
        tells_of(
            JsonView::Object(full_event(entry, database, collection)),
            entry,
            database,
            collection,
        ),
        carries_document(JsonView::Object(full_event(entry, database, collection)), entry),
{
    lemma_names();
    let m = full_event(entry, database, collection);
    let bare = crate::dispatch::bare_event(entry, database, collection);
    assert(m.take(bare.len() as int) =~= bare);
    lemma_bare(m, entry, database, collection);
    assert(bare[0].0 == "eventId"@ && bare[1].0 == "operationType"@ && bare[2].0
        == "clusterTime"@ && bare[3].0 == "database"@ && bare[4].0 == "collection"@);
    assert forall|i: int| 0 <= i < bare.len() implies m[i] == #[trigger] bare[i] by {}
    if entry.document is Some {
        let body = JsonView::Object(m);
        assert(body->Object_0[bare.len() as int] == (
            "fullDocument"@,
            document_json(entry.document->0),
        ));
    }
}

proof fn lemma_stripped(entry: OplogEntry, database: Seq<char>, collection: Seq<char>)
    ensures
        tells_of(
            JsonView::Object(stripped_event(entry, database, collection)),
            entry,
            database,
            collection,
        ),
        omits_document(JsonView::Object(stripped_event(entry, database, collection))),
{
    lemma_names();
    let m = stripped_event(entry, database, collection);
    let bare = crate::dispatch::bare_event(entry, database, collection);
    assert(m.take(bare.len() as int) =~= bare);
    assert(m[bare.len() as int].0 == "fullDocumentOmitted"@);
    assert(m[bare.len() as int + 1].0 == "omittedReason"@);
    lemma_bare(m, entry, database, collection);
    assert(bare[0].0 == "eventId"@ && bare[1].0 == "operationType"@ && bare[2].0
        == "clusterTime"@ && bare[3].0 == "database"@ && bare[4].0 == "collection"@);
    assert forall|i: int| 0 <= i < bare.len() implies m[i] == #[trigger] bare[i] by {}
    let body = JsonView::Object(m);
    assert(body->Object_0[bare.len() as int] == ("fullDocumentOmitted"@, JsonView::Bool(true)));
}

/// An event tells of its change, and carries the document where the change left
/// one; without it, it tells the same.
pub proof fn an_event_tells_of_its_change(
    entry: OplogEntry,
    database: &str,
    collection: &str,
    whole: Json,
    bare: Json,
)
    requires
        call_ensures(render, (&entry, database, collection), whole),
        call_ensures(render_without_document, (&entry, database, collection), bare),
    ensures
        tells_of(whole@, entry, database@, collection@),
        carries_document(whole@, entry),
        tells_of(bare@, entry, database@, collection@),
        lacks_field(bare@, "fullDocument"@),
{
    lemma_full(entry, database@, collection@);
    let m = crate::dispatch::bare_event(entry, database@, collection@);
    assert(m.take(m.len() as int) =~= m);
    lemma_bare(m, entry, database@, collection@);
    lemma_names();
    assert(m[0].0 == "eventId"@ && m[1].0 == "operationType"@ && m[2].0 == "clusterTime"@
        && m[3].0 == "database"@ && m[4].0 == "collection"@);
}

/// The event a subscription wants says the operation it was asked for by: whatever
/// name a subscription is alone in asking for, every event it wants carries that
/// name.
pub proof fn a_wanted_event_names_the_operation_asked_for(
    entry: OplogEntry,
    collection_id: u64,
    operations: Vec<String>,
    database: &str,
    collection: &str,
    event: Json,
)
    requires
        call_ensures(wanted, (&entry, collection_id, &operations), true),
        call_ensures(render, (&entry, database, collection), event),
        operations@.len() == 1,
    ensures
        has_field(event@, "operationType"@, JsonView::String(operations@[0]@)),
{
    reveal(tells_of);
    lemma_wanted(entry, collection_id, operations@);
    lemma_full(entry, database@, collection@);
    assert(is_change_named(entry.kind, operations@[0]@));
}

/// A request names its first event, is signed over the time it was sent at and its
/// body, under the subscription's secret, and goes to its endpoint.
pub proof fn a_request_is_signed_over_what_it_carries(
    job: Job,
    delivery: Delivery,
    timestamp_ms: u64,
    r: DeliveryRequest,
    secret: &str,
    body: &str,
    signature: String,
)
    requires
        call_ensures(request, (&job, &delivery, timestamp_ms), r),
        call_ensures(sign, (secret, timestamp_ms, body), signature),
        secret@ == job.secret@,
        body@ == delivery.body@,
    ensures
        r.url@ == job.url@,
        r.body@ == delivery.body@,
        r.timestamp@ == decimal(timestamp_ms as nat),
        r.signature@ == signature@,
        signature@ == hex_text(
            hmac_sha256(
                encode_utf8(job.secret@),
                encode_utf8(r.timestamp@ + "."@ + delivery.body@),
            ),
        ),
        delivery.stamps@.len() > 0 ==> r.event_id@ == delivery.stamps@[0].time@ + "-"@
            + delivery.stamps@[0].node@,
{
}

/// An event's id is the one its request and its rendering carry, and an endpoint
/// has taken a delivery where it answers with a status of the two hundreds.
pub proof fn an_id_is_the_same_wherever_it_stands(
    entry: OplogEntry,
    id: String,
    status: u16,
    text: &str,
    outcome: Result<(), String>,
)
    requires
        call_ensures(event_id, (&entry,), id),
        call_ensures(delivered, (status, text), outcome),
    ensures
        id@ == entry.stamp.time@ + "-"@ + entry.stamp.node@,
        outcome is Ok <==> 200 <= status < 300,
{
}

/// A body is an object that names its subscription and holds its events.
pub proof fn a_body_names_its_subscription(subscription: &str, events: Vec<Json>, body: String)
    requires
        call_ensures(envelope, (subscription, events), body),
    ensures
        exists|object: JsonView|
            {
                &&& body@ == #[trigger] json_text(object)
                &&& has_field(object, "subscription"@, JsonView::String(subscription@))
                &&& has_field(
                    object,
                    "events"@,
                    JsonView::Array(crate::json::json_items(events@)),
                )
            },
{
    lemma_envelope(subscription@, crate::json::json_items(events@));
}

proof fn lemma_envelope(subscription: Seq<char>, events: Seq<JsonView>)
    ensures
        has_field(
            envelope_of(subscription, events),
            "subscription"@,
            JsonView::String(subscription),
        ),
        has_field(envelope_of(subscription, events), "events"@, JsonView::Array(events)),
{
    reveal_strlit("subscription");
    reveal_strlit("events");
    let m = envelope_of(subscription, events)->Object_0;
    assert(m[0].0 == "subscription"@ && m[1].0 == "events"@);
}

/// Whether one change was made before another: at an earlier millisecond, or in the
/// same one by its count.
pub open spec fn earlier(a: Hlc, b: Hlc) -> bool {
    a.wall_ms < b.wall_ms || (a.wall_ms == b.wall_ms && a.logical < b.logical)
}

/// The entries that a subscription asked for and that are later than what was
/// delivered of their node, in the order of the log.
pub open spec fn undelivered(
    entries: Seq<OplogEntry>,
    job: Job,
    progress: VersionVector,
) -> Seq<OplogEntry> {
    entries.filter(
        |e: OplogEntry|
            asked_for(e, job.collection_id, job.operations@) && earlier(
                progress.at(e.stamp.node@),
                e.stamp.hlc,
            ),
    )
}

proof fn lemma_due(entries: Seq<OplogEntry>, job: Job, progress: VersionVector, n: nat)
    requires
        n <= entries.len(),
    ensures
        due(entries, job, progress, n) == undelivered(entries.take(n as int), job, progress),
    decreases n,
{
    reveal(Seq::filter);
    if n > 0 {
        lemma_due(entries, job, progress, (n - 1) as nat);
        assert(entries.take(n as int).drop_last() =~= entries.take(n - 1));
        lemma_wanted(entries[n - 1], job.collection_id, job.operations@);
    } else {
        assert(entries.take(0) =~= Seq::<OplogEntry>::empty());
    }
}

proof fn lemma_taken_bound(
    entries: Seq<OplogEntry>,
    database: Seq<char>,
    collection: Seq<char>,
    used: nat,
    first: bool,
    max: nat,
)
    ensures
        taken(entries, database, collection, used, first, max) <= entries.len(),
    decreases entries.len(),
{
    if entries.len() > 0 {
        let cost = crate::dispatch::event_bytes(entries[0], database, collection) + (if first {
            0nat
        } else {
            1
        });
        lemma_taken_bound(entries.skip(1), database, collection, used + cost, false, max);
    }
}

/// Whether a delivery is of these entries, from the first: one event for each, in
/// their order, told whole; or of the first alone, with its document left out.
pub open spec fn delivers(delivery: Delivery, entries: Seq<OplogEntry>, job: Job) -> bool {
    let n = delivery.stamps@.len();
    &&& 0 < n <= entries.len() && n <= 64
    &&& forall|i: int|
        0 <= i < n ==> (#[trigger] delivery.stamps@[i]).hlc == entries[i].stamp.hlc
            && delivery.stamps@[i].node == entries[i].stamp.node && delivery.stamps@[i].time
            == entries[i].stamp.time
    &&& exists|object: JsonView, events: Seq<JsonView>|
        #![trigger has_field(object, "events"@, JsonView::Array(events))]
        {
            &&& delivery.body@ == json_text(object)
            &&& has_field(object, "subscription"@, JsonView::String(job.id@))
            &&& has_field(object, "events"@, JsonView::Array(events))
            &&& events.len() == n
            &&& forall|i: int|
                0 <= i < n ==> tells_of(
                    #[trigger] events[i],
                    entries[i],
                    job.database@,
                    job.collection@,
                )
            &&& (forall|i: int| 0 <= i < n ==> carries_document(#[trigger] events[i], entries[i]))
                || n == 1 && omits_document(events[0])
        }
}

proof fn lemma_delivers(delivery: Delivery, batch: Seq<OplogEntry>, job: Job, max: usize)
    requires
        batch.len() > 0,
        delivery.body@ == json_text(envelope_of(job.id@, events_of(job, batch, max))),
        delivery.stamps@.len() == covered(job, batch, max),
        crate::dispatch::stamps_of(delivery.stamps@, batch),
    ensures
        delivers(delivery, batch, job),
{
    let events = events_of(job, batch, max);
    let object = envelope_of(job.id@, events);
    let n = fitting(job, batch, max);
    lemma_envelope(job.id@, events);
    lemma_taken_bound(
        batch_of(batch),
        job.database@,
        job.collection@,
        crate::dispatch::overhead(job.id@),
        true,
        max as nat,
    );
    if n == 0 {
        lemma_stripped(batch[0], job.database@, job.collection@);
    } else {
        assert forall|i: int| 0 <= i < n implies tells_of(
            #[trigger] events[i],
            batch[i],
            job.database@,
            job.collection@,
        ) && carries_document(events[i], batch[i]) by {
            lemma_full(batch[i], job.database@, job.collection@);
        }
    }
    assert(has_field(object, "events"@, JsonView::Array(events)));
}

/// Assembling takes the entries given, from the first, and leaves none out between.
pub proof fn a_delivery_leaves_none_out(
    job: Job,
    entries: Vec<OplogEntry>,
    places: Vec<usize>,
    max: usize,
    delivery: Delivery,
)
    requires
        call_ensures(assemble, (&job, &entries, &places, max), delivery),
        places@.len() > 0,
    ensures
        delivers(delivery, Seq::new(places@.len(), |i: int| entries@[places@[i] as int]), job),
{
    let batch = Seq::new(places@.len(), |i: int| entries@[places@[i] as int]);
    assert(batch =~= crate::dispatch::picked(entries@, places@));
    lemma_delivers(delivery, batch, job, max);
}

/// A pass does about a subscription what its state calls for. Another node's, one
/// that was stopped, one that is caught up and one that waits after a failure are
/// sent nothing. One whose history is gone is stopped. To any other the entries it
/// has not been sent go out, from the first on; where there are none its position
/// moves only once it has grown old.
pub proof fn a_pass_sends_what_is_due(
    job: Job,
    facts: Facts,
    owner: bool,
    ready: bool,
    limits: Limits,
    now_ms: u64,
    v: Verdict,
)
    requires
        call_ensures(judge, (&job, &facts, owner, ready, &limits, now_ms), v),
    ensures
        !owner <==> v is NotOwner,
        owner && job.invalidated <==> v is Invalidated,
        owner && !job.invalidated && facts.from is None <==> v is CaughtUp,
        owner && !job.invalidated && facts.from is Some && !ready <==> v is BackingOff,
        v is BackingOff ==> v->BackingOff_behind_ms == age_ms(now_ms, facts.from->0),
        v is Collected <==> owner && !job.invalidated && facts.from is Some && ready
            && facts.collected_through is Some && earlier(
            facts.from->0,
            facts.collected_through->0,
        ),
        v is Unreadable ==> facts.scanned is None,
        v is Deliver || v is Idle ==> owner && !job.invalidated && ready && facts.from is Some
            && facts.scanned is Some,
        v is Deliver ==> ({
            let all = undelivered(facts.scanned->0@, job, facts.progress);
            &&& all.len() > 0
            &&& delivers(v->delivery, all, job)
            &&& v->Deliver_behind_ms == age_ms(now_ms, all[0].stamp.hlc)
        }),
        v is Idle ==> ({
            &&& undelivered(facts.scanned->0@, job, facts.progress).len() == 0
            &&& v->advance is Some <==> age_ms(now_ms, facts.from->0)
                >= limits.progress_heartbeat_ms
        }),
{
    if facts.scanned is Some {
        let entries = facts.scanned->0@;
        lemma_due(entries, job, facts.progress, entries.len());
        assert(entries.take(entries.len() as int) =~= entries);
        let all = undelivered(entries, job, facts.progress);
        let batch = batch_of(all);
        if v is Deliver {
            lemma_delivers(v->delivery, batch, job, limits.max_payload_bytes);
            assert(batch[0] == all[0]);
            lemma_delivers_more(v->delivery, batch, all, job);
        }
    }
}

proof fn lemma_delivers_more(
    delivery: Delivery,
    batch: Seq<OplogEntry>,
    all: Seq<OplogEntry>,
    job: Job,
)
    requires
        delivers(delivery, batch, job),
        batch.len() <= all.len(),
        forall|i: int| 0 <= i < batch.len() ==> #[trigger] batch[i] == all[i],
    ensures
        delivers(delivery, all, job),
{
    let n = delivery.stamps@.len();
    let (object, events) = choose|object: JsonView, events: Seq<JsonView>|
        #![trigger has_field(object, "events"@, JsonView::Array(events))]
        {
            &&& delivery.body@ == json_text(object)
            &&& has_field(object, "subscription"@, JsonView::String(job.id@))
            &&& has_field(object, "events"@, JsonView::Array(events))
            &&& events.len() == n
            &&& forall|i: int|
                0 <= i < n ==> tells_of(
                    #[trigger] events[i],
                    batch[i],
                    job.database@,
                    job.collection@,
                )
            &&& (forall|i: int| 0 <= i < n ==> carries_document(#[trigger] events[i], batch[i]))
                || n == 1 && omits_document(events[0])
        };
    assert forall|i: int| 0 <= i < n implies (#[trigger] delivery.stamps@[i]).hlc
        == all[i].stamp.hlc && delivery.stamps@[i].node == all[i].stamp.node
        && delivery.stamps@[i].time == all[i].stamp.time by {
        assert(batch[i] == all[i]);
    }
    assert forall|i: int| 0 <= i < n implies tells_of(
        #[trigger] events[i],
        all[i],
        job.database@,
        job.collection@,
    ) by {
        assert(batch[i] == all[i]);
    }
    if forall|i: int| 0 <= i < n ==> carries_document(#[trigger] events[i], batch[i]) {
        assert forall|i: int| 0 <= i < n implies carries_document(
            #[trigger] events[i],
            all[i],
        ) by {
            assert(batch[i] == all[i]);
        }
    }
    assert(has_field(object, "events"@, JsonView::Array(events)));
}

/// How long ago a reading was taken, in milliseconds; nothing where it lies ahead.
pub open spec fn age_ms(now_ms: u64, then: Hlc) -> int {
    if now_ms >= then.wall_ms {
        now_ms - then.wall_ms
    } else {
        0
    }
}

/// Whether a registry record names itself, its endpoint, its secret, its database
/// and its collection, each as a text.
pub open spec fn is_registered(record: Document) -> bool {
    let r = bson_members(record@);
    &&& text_under(r, "_id"@) is Some
    &&& text_under(r, "url"@) is Some
    &&& text_under(r, "secret"@) is Some
    &&& text_under(r, "database"@) is Some
    &&& text_under(r, "collection"@) is Some
}

/// Whether a job is what a registry record says.
pub open spec fn is_registered_as(job: Job, record: Document, collection_id: u64) -> bool {
    let r = bson_members(record@);
    &&& text_under(r, "_id"@) == Some(job.id@)
    &&& text_under(r, "url"@) == Some(job.url@)
    &&& text_under(r, "secret"@) == Some(job.secret@)
    &&& text_under(r, "database"@) == Some(job.database@)
    &&& text_under(r, "collection"@) == Some(job.collection@)
    &&& job.collection_id == collection_id
    &&& job.invalidated <==> text_under(r, "state"@) == Some("invalidated"@)
}

/// The places of the subscriptions among the registry's records.
pub open spec fn registered_places(records: Seq<Document>) -> Seq<int> {
    Seq::new(records.len(), |i: int| i).filter(|i: int| is_registered(records[i]))
}

proof fn lemma_places(records: Seq<Document>, n: nat)
    requires
        n <= records.len(),
    ensures
        subscription_places(records, n) == Seq::new(n, |i: int| i).filter(
            |i: int| is_registered(records[i]),
        ),
    decreases n,
{
    reveal(Seq::filter);
    if n > 0 {
        lemma_places(records, (n - 1) as nat);
        assert(Seq::new(n, |i: int| i).drop_last() =~= Seq::new((n - 1) as nat, |i: int| i));
    }
}

/// Every subscription of the registry is loaded as it was registered, in the
/// registry's order, and nothing else is.
pub proof fn every_registered_subscription_is_loaded(
    records: Vec<Document>,
    collection_ids: Vec<u64>,
    jobs: Vec<Job>,
)
    requires
        records@.len() == collection_ids@.len(),
        call_ensures(load_jobs, (&records, &collection_ids), jobs),
    ensures
        jobs@.len() == registered_places(records@).len(),
        forall|k: int|
            0 <= k < jobs@.len() ==> {
                let place = registered_places(records@)[k];
                is_registered_as(#[trigger] jobs@[k], records@[place], collection_ids@[place])
            },
{
    lemma_places(records@, records@.len());
    assert forall|k: int| 0 <= k < jobs@.len() implies {
        let place = registered_places(records@)[k];
        is_registered_as(#[trigger] jobs@[k], records@[place], collection_ids@[place])
    } by {
        assert(crate::dispatch::is_job_at(
            jobs@[k],
            records@,
            collection_ids@,
            subscription_places(records@, records@.len())[k],
        ));
    }
}

/// A pass counts each subscription it passed over under its own reason, and its
/// backlog is the worst of any, in whole seconds.
pub proof fn a_pass_is_summed_up(
    jobs: Vec<Job>,
    verdicts: Vec<Verdict>,
    s: PassSummary,
)
    requires
        jobs@.len() == verdicts@.len(),
        call_ensures(summarize, (&jobs, &verdicts), s),
    ensures
        s.outcome.skipped_not_owner == verdicts@.filter(|v: Verdict| v is NotOwner).len(),
        s.outcome.skipped_backoff == verdicts@.filter(|v: Verdict| v is BackingOff).len(),
        s.outcome.invalidated == verdicts@.filter(|v: Verdict| v is Collected).len(),
        s.outcome.delivered == 0 && s.outcome.failed == 0,
        s.invalidated == jobs@.filter(|j: Job| j.invalidated).len(),
        s.active + s.invalidated == jobs@.len(),
        forall|i: int|
            0 <= i < verdicts@.len() && (#[trigger] verdicts@[i]) is Deliver ==> s.backlog_secs
                >= verdicts@[i]->Deliver_behind_ms / 1000,
        forall|i: int|
            0 <= i < verdicts@.len() && (#[trigger] verdicts@[i]) is BackingOff ==> s.backlog_secs
                >= verdicts@[i]->BackingOff_behind_ms / 1000,
        s.backlog_secs == 0 || exists|i: int|
            0 <= i < verdicts@.len() && ((#[trigger] verdicts@[i]) is Deliver && s.backlog_secs
                == verdicts@[i]->Deliver_behind_ms / 1000 || verdicts@[i] is BackingOff
                && s.backlog_secs == verdicts@[i]->BackingOff_behind_ms / 1000),
{
    let n = verdicts@.len();
    assert(verdicts@.take(n as int) =~= verdicts@);
    assert(jobs@.take(n as int) =~= jobs@);
    lemma_how_many(verdicts@, n);
    lemma_stopped(jobs@, n);
    lemma_worst(verdicts@, n);
    let len: usize = verdicts.len();
}

proof fn lemma_how_many(verdicts: Seq<Verdict>, n: nat)
    requires
        n <= verdicts.len(),
    ensures
        how_many(verdicts, Skip::NotOwner, n) == verdicts.take(n as int).filter(
            |v: Verdict| v is NotOwner,
        ).len(),
        how_many(verdicts, Skip::BackingOff, n) == verdicts.take(n as int).filter(
            |v: Verdict| v is BackingOff,
        ).len(),
        how_many(verdicts, Skip::Collected, n) == verdicts.take(n as int).filter(
            |v: Verdict| v is Collected,
        ).len(),
    decreases n,
{
    reveal(Seq::filter);
    if n > 0 {
        lemma_how_many(verdicts, (n - 1) as nat);
        assert(verdicts.take(n as int).drop_last() =~= verdicts.take(n - 1));
    } else {
        assert(verdicts.take(0) =~= Seq::<Verdict>::empty());
    }
}

proof fn lemma_stopped(jobs: Seq<Job>, n: nat)
    requires
        n <= jobs.len(),
    ensures
        how_many_stopped(jobs, n) == jobs.take(n as int).filter(|j: Job| j.invalidated).len(),
    decreases n,
{
    reveal(Seq::filter);
    if n > 0 {
        lemma_stopped(jobs, (n - 1) as nat);
        assert(jobs.take(n as int).drop_last() =~= jobs.take(n - 1));
    } else {
        assert(jobs.take(0) =~= Seq::<Job>::empty());
    }
}

proof fn lemma_worst(verdicts: Seq<Verdict>, n: nat)
    requires
        n <= verdicts.len(),
    ensures
        forall|i: int|
            0 <= i < n ==> worst_lag(verdicts, n) >= crate::dispatch::lag(#[trigger] verdicts[i]),
        worst_lag(verdicts, n) == 0 || exists|i: int|
            0 <= i < n && worst_lag(verdicts, n) == crate::dispatch::lag(#[trigger] verdicts[i]),
    decreases n,
{
    if n > 0 {
        lemma_worst(verdicts, (n - 1) as nat);
        let before = worst_lag(verdicts, (n - 1) as nat);
        let lag = crate::dispatch::lag(verdicts[n - 1]);
        if before < lag {
            assert(worst_lag(verdicts, n) == crate::dispatch::lag(verdicts[n - 1]));
        } else if before > 0 {
            let i = choose|i: int|
                0 <= i < n - 1 && before == crate::dispatch::lag(#[trigger] verdicts[i]);
            assert(worst_lag(verdicts, n) == crate::dispatch::lag(verdicts[i]));
        }
    }
}

/// What a pass may spend: sixty-four events to a request, two hundred and fifty-six
/// entries to a read, ten seconds to a delivery, two between passes, and between two
/// seconds and five minutes after a failure.
pub proof fn what_a_pass_may_spend()
    ensures
        BATCH == 64,
        SCAN == 256,
        DELIVERY_TIMEOUT_MS == 10_000,
        TICK_MS == 2_000,
        BACKOFF_MIN_MS == 2_000,
        BACKOFF_MAX_MS == 300_000,
{
}

/// The wait after so many failures in a row: four seconds after the first, twice as
/// long after each further one, and five minutes at the most.
pub open spec fn wait_after(failures: int) -> int {
    if failures <= 1 {
        4_000
    } else if failures == 2 {
        8_000
    } else if failures == 3 {
        16_000
    } else if failures == 4 {
        32_000
    } else if failures == 5 {
        64_000
    } else if failures == 6 {
        128_000
    } else if failures == 7 {
        256_000
    } else {
        300_000
    }
}

/// A failed delivery counts one more failure in a row, and its subscription is tried
/// again once its wait is over and no sooner. No other subscription waits for it.
pub proof fn a_failed_subscription_waits(
    backoff: &mut Backoff,
    subscription: &str,
    now_ms: u64,
    later: &str,
    clock_ms: u64,
    ready: bool,
    was_ready: bool,
    count: u32,
    before: u32,
)
    requires
        old(backoff).wf(),
        call_ensures(Backoff::failed, (backoff, subscription, now_ms), ()),
        call_ensures(Backoff::ready, (final(backoff), later, clock_ms), ready),
        call_ensures(Backoff::ready, (old(backoff), later, clock_ms), was_ready),
        call_ensures(Backoff::failure_count, (final(backoff), later), count),
        call_ensures(Backoff::failure_count, (old(backoff), later), before),
    ensures
        later@ == subscription@ && before < u32::MAX ==> count == before + 1,
        later@ == subscription@ && before < u32::MAX ==> (ready <==> clock_ms >= now_ms
            + wait_after(before + 1)),
        later@ != subscription@ ==> count == before && ready == was_ready,
{
    crate::dispatch::a_failure_delays_its_own_subscription_alone(
        *old(backoff),
        *final(backoff),
        subscription@,
        now_ms,
        later@,
        clock_ms,
    );
    crate::dispatch::backoff_waits(count);
}

/// A delivery that was taken clears what was held against its subscription, and so
/// does its removal; of no other is anything forgotten.
pub proof fn a_success_clears_its_own_failures(
    backoff: &mut Backoff,
    subscription: &str,
    pruned: &mut Backoff,
    live: Vec<String>,
    id: Seq<char>,
)
    requires
        old(backoff).wf(),
        old(pruned).wf(),
        call_ensures(Backoff::succeeded, (backoff, subscription), ()),
        call_ensures(Backoff::prune, (pruned, &live), ()),
    ensures
        final(backoff).failures_of(subscription@) == 0,
        forall|now: u64| final(backoff).is_ready(subscription@, now),
        id != subscription@ ==> final(backoff).state(id) == old(backoff).state(id),
        !member_texts(live@).contains(id) ==> final(pruned).failures_of(id) == 0,
        member_texts(live@).contains(id) ==> final(pruned).state(id) == old(pruned).state(id),
{
    assert(final(backoff).state(subscription@) is None);
    assert(id != subscription@ ==> final(backoff).state(id) == old(backoff).state(id));
    assert(final(pruned).state(id) == final(pruned).state(id));
}

/// A delivery that was taken clears the failures of its own subscription, and one
/// that failed adds one to them. Each is counted once, for what it was.
pub proof fn a_delivery_is_counted_for_what_it_was(
    job: Job,
    delivery: Delivery,
    succeeded: bool,
    progress: &mut VersionVector,
    backoff: &mut Backoff,
    outcome: &mut DispatchOutcome,
    metrics: &mut Metrics,
    clock_ms: u64,
    other: Seq<char>,
)
    requires
        old(backoff).wf(),
        call_ensures(
            settle,
            (&job, &delivery, succeeded, progress, backoff, outcome, metrics, clock_ms),
            (),
        ),
        old(outcome).delivered + delivery.stamps@.len() <= usize::MAX,
        old(outcome).failed < usize::MAX,
    ensures
        succeeded ==> final(backoff).failures_of(job.id@) == 0,
        !succeeded && old(backoff).failures_of(job.id@) < u32::MAX ==> final(backoff).failures_of(
            job.id@,
        ) == old(backoff).failures_of(job.id@) + 1,
        other != job.id@ ==> final(backoff).state(other) == old(backoff).state(other),
        succeeded ==> final(outcome).delivered == old(outcome).delivered
            + delivery.stamps@.len() && final(outcome).failed == old(outcome).failed,
        !succeeded ==> final(outcome).failed == old(outcome).failed + 1 && final(
            outcome).delivered == old(outcome).delivered,
        succeeded ==> final(metrics).webhook_delivered == old(
            metrics).webhook_delivered.wrapping_add(1) && final(metrics).webhook_failed == old(
            metrics).webhook_failed,
        !succeeded ==> final(metrics).webhook_failed == old(metrics).webhook_failed.wrapping_add(
            1,
        ) && final(metrics).webhook_delivered == old(metrics).webhook_delivered,
{
    assert(final(backoff).state(job.id@) is None <==> succeeded);
    assert(other != job.id@ ==> final(backoff).state(other) == old(backoff).state(other));
}

/// What was delivered moves a node's position to the newest of it that was: no
/// event of the node that went out lies ahead, the position never goes back, and it
/// moves only to where an event of the node went out.
pub proof fn a_position_moves_to_the_newest_delivered(start: Hlc, stamps: Seq<Stamp>, node: Seq<char>, n: nat)
    requires
        n <= stamps.len(),
    ensures
        ({
            let after = crate::dispatch::delivered_through(start, stamps, node, n);
            &&& !earlier(after, start)
            &&& forall|k: int|
                0 <= k < n && (#[trigger] stamps[k]).node@ == node ==> !earlier(
                    after,
                    stamps[k].hlc,
                )
            &&& after == start || exists|k: int|
                0 <= k < n && (#[trigger] stamps[k]).node@ == node && stamps[k].hlc == after
        }),
    decreases n,
{
    if n > 0 {
        a_position_moves_to_the_newest_delivered(start, stamps, node, (n - 1) as nat);
        let before = crate::dispatch::delivered_through(start, stamps, node, (n - 1) as nat);
        let after = crate::dispatch::delivered_through(start, stamps, node, n);
        if after == before && before != start {
            let k = choose|k: int|
                0 <= k < n - 1 && (#[trigger] stamps[k]).node@ == node && stamps[k].hlc == before;
            assert(stamps[k].hlc == after);
        } else if after != before {
            assert(stamps[n - 1].node@ == node && stamps[n - 1].hlc == after);
        }
    }
}

/// Every subscription of a pass is judged as its own node, state and backoff say;
/// what is no longer registered is forgotten by the backoff, and nothing else of it
/// changes.
pub proof fn every_subscription_of_a_pass_is_judged(
    jobs: Vec<Job>,
    facts: Vec<Facts>,
    me: &str,
    members: Vec<String>,
    backoff: &mut Backoff,
    limits: Limits,
    now_ms: u64,
    clock_ms: u64,
    verdicts: Vec<Verdict>,
    i: int,
    id: &str,
    mine: bool,
    ready: bool,
)
    requires
        jobs@.len() == facts@.len(),
        old(backoff).wf(),
        call_ensures(
            plan_pass,
            (&jobs, &facts, me, &members, backoff, &limits, now_ms, clock_ms),
            verdicts,
        ),
        0 <= i < jobs@.len(),
        id@ == jobs@[i].id@,
        call_ensures(owns, (id, me, &members), mine),
        call_ensures(Backoff::ready, (old(backoff), id, clock_ms), ready),
    ensures
        verdicts@.len() == jobs@.len(),
        verdicts@[i] is NotOwner <==> !mine,
        verdicts@[i] is BackingOff ==> mine && !ready,
        verdicts@[i] is Deliver ==> mine && ready && !jobs@[i].invalidated
            && facts@[i].scanned is Some && delivers(
            verdicts@[i]->delivery,
            undelivered(facts@[i].scanned->0@, jobs@[i], facts@[i].progress),
            jobs@[i],
        ),
        verdicts@[i] is Idle ==> undelivered(
            facts@[i].scanned->0@,
            jobs@[i],
            facts@[i].progress,
        ).len() == 0,
        final(backoff).state(id@) == old(backoff).state(id@),
{
    let v = verdicts@[i];
    let job = jobs@[i];
    let f = facts@[i];
    assert(judged(job, f, mine, ready, limits, now_ms, v));
    assert(crate::dispatch::job_ids(jobs@)[i] == id@);
    assert(crate::dispatch::job_ids(jobs@).contains(id@));
    assert(final(backoff).state(id@) == old(backoff).state(id@));
    if f.scanned is Some {
        let entries = f.scanned->0@;
        lemma_due(entries, job, f.progress, entries.len());
        assert(entries.take(entries.len() as int) =~= entries);
        let all = undelivered(entries, job, f.progress);
        let batch = batch_of(all);
        if v is Deliver {
            lemma_delivers(v->delivery, batch, job, limits.max_payload_bytes);
            lemma_delivers_more(v->delivery, batch, all, job);
        }
    }
}

/// A subscription that is stopped is marked so, with the reason, and keeps the rest
/// of its record.
pub proof fn a_stopped_subscription_is_marked(record: &mut Document, reason: &str, name: Seq<char>)
    requires
        call_ensures(invalidate, (record, reason), ()),
    ensures
        text_under(bson_members(final(record)@), "state"@) == Some("invalidated"@),
        text_under(bson_members(final(record)@), "invalidReason"@) == Some(reason@),
        name != "state"@ && name != "invalidReason"@ ==> crate::json::lookup(
            bson_members(final(record)@),
            name,
        ) == crate::json::lookup(bson_members(old(record)@), name),
{
    reveal_strlit("state");
    reveal_strlit("invalidReason");
    assert("state"@.len() != "invalidReason"@.len());
    let before = bson_members(old(record)@);
    let stopped = crate::json::BsonView::String("invalidated"@);
    let middle = crate::json::put(before, "state"@, stopped);
    crate::dispatch::lemma_lookup_put(before, "state"@, stopped);
    crate::dispatch::lemma_lookup_put(
        middle,
        "invalidReason"@,
        crate::json::BsonView::String(reason@),
    );
}

/// A position that is moved forward although nothing was due moves past every entry
/// that was read, and never back.
pub proof fn a_heartbeat_moves_past_what_was_read(
    job: Job,
    facts: Facts,
    owner: bool,
    ready: bool,
    limits: Limits,
    now_ms: u64,
    v: Verdict,
    i: int,
    node: Seq<char>,
)
    requires
        call_ensures(judge, (&job, &facts, owner, ready, &limits, now_ms), v),
        v is Idle,
        v->advance is Some,
        0 <= i < facts.scanned->0@.len(),
    ensures
        !earlier(
            v->advance->0.at(facts.scanned->0@[i].stamp.node@),
            facts.scanned->0@[i].stamp.hlc,
        ),
        !earlier(v->advance->0.at(node), facts.progress.at(node)),
{
    let entries = facts.scanned->0@;
    let own = entries[i].stamp.node@;
    assert(v->advance->0.at(own) == crate::dispatch::noted_through(
        facts.progress.at(own),
        entries,
        own,
        entries.len(),
    ));
    assert(v->advance->0.at(node) == crate::dispatch::noted_through(
        facts.progress.at(node),
        entries,
        node,
        entries.len(),
    ));
    lemma_noted_past(facts.progress.at(own), entries, own, entries.len());
    lemma_noted_past(facts.progress.at(node), entries, node, entries.len());
}

proof fn lemma_noted_past(start: Hlc, entries: Seq<OplogEntry>, node: Seq<char>, n: nat)
    requires
        n <= entries.len(),
    ensures
        ({
            let after = crate::dispatch::noted_through(start, entries, node, n);
            &&& !earlier(after, start)
            &&& forall|k: int|
                0 <= k < n && (#[trigger] entries[k]).stamp.node@ == node ==> !earlier(
                    after,
                    entries[k].stamp.hlc,
                )
        }),
    decreases n,
{
    if n > 0 {
        lemma_noted_past(start, entries, node, (n - 1) as nat);
    }
}

/// A delivery carries as many entries as fit into one body whole, sixty-four at the
/// most; and where not even the first fits, that one alone.
pub proof fn a_delivery_carries_what_fits(
    job: Job,
    entries: Vec<OplogEntry>,
    places: Vec<usize>,
    max: usize,
    delivery: Delivery,
    k: nat,
)
    requires
        call_ensures(assemble, (&job, &entries, &places, max), delivery),
        1 <= k <= places@.len(),
        k <= 64,
    ensures
        ({
            let all = Seq::new(places@.len(), |i: int| entries@[places@[i] as int]);
            let fits = crate::text::utf8_len(
                json_text(envelope_of(job.id@, crate::dispatch::whole_events(job, all, k))),
            ) <= max;
            &&& fits ==> delivery.stamps@.len() >= k
            &&& delivery.stamps@.len() >= k ==> fits || k == 1
            &&& delivery.stamps@.len() > 1 ==> crate::text::utf8_len(delivery.body@) <= max
        }),
{
    let all = Seq::new(places@.len(), |i: int| entries@[places@[i] as int]);
    assert(all =~= crate::dispatch::picked(entries@, places@));
    crate::dispatch::a_body_takes_exactly_what_fits(job, all, max, k);
    if fitting(job, all, max) > 0 {
        crate::dispatch::whole_events_stay_within_the_cap(job, all, max);
    }
}

/// The texts among a record's values, in order.
pub open spec fn only_texts(items: Seq<BsonView>) -> Seq<Seq<char>> {
    items.filter(|v: BsonView| v is String).map_values(|v: BsonView| v->String_0)
}

/// Whether a job asks for the operations that its record lists as texts, and for none
/// where it lists nothing.
pub open spec fn asks_for_listed(job: Job, record: Document) -> bool {
    match lookup(bson_members(record@), "operations"@) {
        Some(BsonView::Array(items)) => member_texts(job.operations@) == only_texts(items),
        _ => job.operations@.len() == 0,
    }
}

/// A subscription asks for the operations that its record lists.
pub proof fn a_subscription_asks_for_the_operations_listed(
    records: Vec<Document>,
    collection_ids: Vec<u64>,
    jobs: Vec<Job>,
    k: int,
)
    requires
        records@.len() == collection_ids@.len(),
        call_ensures(load_jobs, (&records, &collection_ids), jobs),
        0 <= k < jobs@.len(),
    ensures
        asks_for_listed(jobs@[k], records@[registered_places(records@)[k]]),
{
    lemma_places(records@, records@.len());
    let place = registered_places(records@)[k];
    assert(crate::dispatch::is_job_at(
        jobs@[k],
        records@,
        collection_ids@,
        subscription_places(records@, records@.len())[k],
    ));
    let record = bson_members(records@[place]@);
    match lookup(record, "operations"@) {
        Some(BsonView::Array(items)) => {
            lemma_only_texts(items);
        },
        _ => {
            assert(member_texts(jobs@[k].operations@).len() == 0);
        },
    }
}

proof fn lemma_only_texts(items: Seq<BsonView>)
    ensures
        crate::dispatch::texts_in(items) == only_texts(items),
    decreases items.len(),
{
    reveal(Seq::filter);
    let pick = |v: BsonView| v is String;
    let text = |v: BsonView| v->String_0;
    if items.len() > 0 {
        lemma_only_texts(items.drop_last());
        let before = items.drop_last().filter(pick);
        if items.last() is String {
            assert(items.filter(pick) == before.push(items.last()));
            assert(before.push(items.last()).map_values(text) =~= before.map_values(text).push(
                items.last()->String_0,
            ));
        }
    } else {
        assert(only_texts(items) =~= Seq::<Seq<char>>::empty());
    }
}

} // verus!
