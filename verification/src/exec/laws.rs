//! What callers of the operations rely on, whatever way each is carried out.

use vstd::prelude::*;
use vstd::string::*;

use super::modify::{
    candidates_for, find_and_modify, modified, Candidates, FindAndModifySpec, IndexPlan, Modified,
    ModifyPlan, Refusals, ReturnDocument,
};
use super::scan::{access_of, Access, Candidate, IndexScan, Probe};
use super::write::{
    delete, delete_by_id, deleted, deleted_by_id, explained_delete, explained_update, insert,
    insert_many, inserted, inserted_many, parse_if_stamp, replace, replaced, update, updated,
    ModifyManyOutcome, ReplaceParams, ReplaceRequest, WriteOutcome, WriteParams, WriteRefusals, WriteStep,
};
use super::query::read_part;
use crate::error::{ApiError, CoreError};
use crate::json::{
    bson_members, json_of, json_of_members, Bson, BsonView, Document, Json, JsonNumber, JsonView,
};

verus! {

/// Whether a response has a field with this value, and with no other.
pub open spec fn has_field(body: JsonView, name: Seq<char>, value: JsonView) -> bool {
    &&& body is Object
    &&& exists|i: int| 0 <= i < body->Object_0.len() && #[trigger] body->Object_0[i] == (name, value)
    &&& forall|i: int|
        0 <= i < body->Object_0.len() && (#[trigger] body->Object_0[i]).0 == name
            ==> body->Object_0[i].1 == value
}

/// Whether a response is an object without this field.
pub open spec fn lacks_field(body: JsonView, name: Seq<char>) -> bool {
    body is Object && forall|i: int|
        0 <= i < body->Object_0.len() ==> (#[trigger] body->Object_0[i]).0 != name
}

/// A whole number in a response.
pub open spec fn count_json(n: u64) -> JsonView {
    JsonView::Number(JsonNumber::PosInt(n))
}

/// A document in a response.
pub open spec fn document_json(doc: Document) -> JsonView {
    JsonView::Object(json_of_members(bson_members(doc@)))
}

/// Whether two names differ: in length, or in a letter.
proof fn lemma_names()
    ensures
        "document"@.len() == 8,
        "matched"@.len() == 7,
        "upsertedId"@.len() == 10,
        "stamp"@.len() == 5,
        "modified"@.len() == 8,
        "modified"@[0] == 'm',
        "document"@[0] == 'd',
        "commits"@.len() == 7,
        "commits"@[0] == 'c',
        "matched"@[0] == 'm',
        "deleted"@.len() == 7,
        "deleted"@[0] == 'd',
        "upserted"@.len() == 8,
        "upserted"@[0] == 'u',
        "explain"@.len() == 7,
        "explain"@[0] == 'e',
        "insertedId"@.len() == 10,
        "insertedIds"@.len() == 11,
        "inserted"@.len() == 8,
        "stamps"@.len() == 6,
        "documents"@.len() == 9,
        "count"@.len() == 5,
        "count"@[0] == 'c',
        "stamp"@[0] == 's',
        "nextCursor"@.len() == 10,
{
    reveal_strlit("document");
    reveal_strlit("matched");
    reveal_strlit("upsertedId");
    reveal_strlit("stamp");
    reveal_strlit("modified");
    reveal_strlit("commits");
    reveal_strlit("deleted");
    reveal_strlit("upserted");
    reveal_strlit("explain");
    reveal_strlit("insertedId");
    reveal_strlit("insertedIds");
    reveal_strlit("inserted");
    reveal_strlit("stamps");
    reveal_strlit("documents");
    reveal_strlit("count");
    reveal_strlit("nextCursor");
}

/// A `find_and_modify` hands back the image that was asked for, wherever there is
/// one, and nothing in its place: a removal that matched hands back the document
/// that was removed, and an update the document as it was or as it is.
pub proof fn the_image_asked_for_is_returned(r: ReturnDocument, outcome: Modified, body: Json)
    requires
        call_ensures(modified, (r, &outcome), body),
    ensures
        r == ReturnDocument::Before && outcome.before is Some ==> has_field(
            body@,
            "document"@,
            document_json(outcome.before->0),
        ),
        r == ReturnDocument::Before && outcome.before is None ==> has_field(
            body@,
            "document"@,
            JsonView::Null,
        ),
        r == ReturnDocument::After && outcome.after is Some ==> has_field(
            body@,
            "document"@,
            document_json(outcome.after->0),
        ),
        r == ReturnDocument::After && outcome.after is None ==> has_field(
            body@,
            "document"@,
            JsonView::Null,
        ),
{
    lemma_names();
    assert(body@->Object_0[0].0 == "document"@);
}

/// It says whether a document matched, names the one that was created where one
/// was, and carries a version only of a document that still exists.
pub proof fn a_modification_says_what_happened(r: ReturnDocument, outcome: Modified, body: Json)
    requires
        call_ensures(modified, (r, &outcome), body),
    ensures
        has_field(
            body@,
            "matched"@,
            count_json(
                if outcome.matched {
                    1
                } else {
                    0
                },
            ),
        ),
        outcome.upserted is Some ==> has_field(
            body@,
            "upsertedId"@,
            json_of(outcome.upserted->0@),
        ),
        outcome.upserted is None ==> lacks_field(body@, "upsertedId"@),
        outcome.after is Some && outcome.stamp is Some ==> has_field(
            body@,
            "stamp"@,
            JsonView::String(outcome.stamp->0@),
        ),
        outcome.after is None || outcome.stamp is None ==> lacks_field(body@, "stamp"@),
{
    lemma_names();
    let members = body@->Object_0;
    assert(members[1].0 == "matched"@);
    if outcome.upserted is Some {
        assert(members[2].0 == "upsertedId"@);
    }
    if outcome.after is Some && outcome.stamp is Some {
        assert(members.last().0 == "stamp"@);
        assert(members[members.len() - 1] == ("stamp"@, JsonView::String(outcome.stamp->0@)));
    }
}

/// A `find_and_modify` does one thing to a document: it changes or removes it. What
/// asks for both, for neither, to create what it removes, or for a removed document
/// as it is afterwards is refused, and so is a version beside an upsert.
pub proof fn a_modification_does_one_thing(
    spec: FindAndModifySpec,
    refused: Refusals,
    plan: Result<ModifyPlan, ApiError>,
)
    requires
        call_ensures(find_and_modify, (spec, refused), plan),
    ensures
        plan is Ok ==> (spec.remove <==> spec.update is None),
        plan is Ok ==> (plan->Ok_0.update is None <==> spec.remove),
        plan is Ok && spec.remove ==> !spec.upsert && spec.return_document
            == ReturnDocument::Before,
        plan is Ok ==> !(spec.upsert && spec.if_stamp is Some),
{
}

/// A `find_and_modify` asks the engine for the documents the request carries, and
/// for no other: its filter, its sort, its projection, its update with its array
/// filters, and the version it is conditional on.
pub proof fn a_modification_asks_for_what_the_request_says(
    spec: FindAndModifySpec,
    refused: Refusals,
    plan: ModifyPlan,
)
    requires
        call_ensures(find_and_modify, (spec, refused), Ok::<ModifyPlan, ApiError>(plan)),
    ensures
        carries(plan.filter, spec.filter),
        carries(plan.sort, spec.sort),
        carries(plan.projection, spec.projection),
        plan.update is Some ==> spec.update is Some && reads_as(
            (plan.update->0).0,
            spec.update->0@,
        ) && all_read_as((plan.update->0).1@, spec.array_filters@),
        is_condition(plan.expected, spec.if_stamp),
{
    if plan.update is Some {
        lemma_documents((plan.update->0).1@, spec.array_filters@, spec.array_filters@.len());
    }
}

/// What the query language refuses of a part that was given refuses the request,
/// and a request of which nothing is refused is carried out.
pub proof fn a_modification_is_refused_only_for_a_reason(
    spec: FindAndModifySpec,
    refused: Refusals,
    plan: Result<ModifyPlan, ApiError>,
)
    requires
        call_ensures(find_and_modify, (spec, refused), plan),
    ensures
        spec.filter is Some && refused.filter is Some ==> plan is Err,
        spec.sort is Some && refused.sort is Some ==> plan is Err,
        spec.projection is Some && refused.projection is Some ==> plan is Err,
        spec.update is Some && refused.update is Some ==> plan is Err,
        spec.upsert && refused.upsert is Some ==> plan is Err,
        spec.if_stamp is Some && spec.if_stamp->0 is Err ==> plan is Err,
        ({
            &&& spec.remove != (spec.update is Some)
            &&& !(spec.remove && spec.upsert)
            &&& !(spec.remove && spec.return_document == ReturnDocument::After)
            &&& is_readable(spec.filter) && refused.filter is None
            &&& is_readable(spec.sort) && refused.sort is None
            &&& is_readable(spec.projection) && refused.projection is None
            &&& is_readable(spec.update) && refused.update is None
            &&& spec.array_filters@.len() == 0
            &&& refused.upsert is None
            &&& spec.if_stamp is None || !spec.upsert && spec.if_stamp->0 is Ok
        }) ==> plan is Ok,
{
}

/// Whether a document is what a JSON value reads as.
pub open spec fn reads_as(doc: Document, value: JsonView) -> bool {
    crate::json::bson_of(value) == Ok::<BsonView, crate::error::ApiErrorView>(
        BsonView::Document(bson_members(doc@)),
    )
}

/// Whether each document is what the value in its place reads as.
pub open spec fn all_read_as(docs: Seq<Document>, values: Seq<Json>) -> bool {
    docs.len() == values.len() && forall|i: int|
        0 <= i < docs.len() ==> reads_as(#[trigger] docs[i], values[i]@)
}

/// Whether a part of a request is left out, or reads as a document.
pub open spec fn is_readable(part: Option<Json>) -> bool {
    part is Some ==> crate::json::bson_of(part->0@) is Ok && crate::json::bson_of(
        part->0@,
    )->Ok_0 is Document
}

/// Whether a document is what a part of a request reads as, and none where the
/// request has none.
pub open spec fn carries(doc: Option<Document>, part: Option<Json>) -> bool {
    &&& doc is Some <==> part is Some
    &&& doc is Some ==> reads_as(doc->0, part->0@)
}

/// Whether a write is conditional on the version that was given, and unconditional
/// where none was.
pub open spec fn is_condition(
    expected: Option<String>,
    if_stamp: Option<Result<String, CoreError>>,
) -> bool {
    &&& expected is Some <==> if_stamp is Some
    &&& expected is Some ==> if_stamp->0 == Ok::<String, CoreError>(expected->0)
}

proof fn lemma_documents(docs: Seq<Document>, values: Seq<Json>, n: nat)
    requires
        n <= values.len(),
        super::write::documents_of(crate::json::json_items(values), n) == Ok::<
            Seq<Seq<(Seq<char>, BsonView)>>,
            crate::error::ApiErrorView,
        >(super::write::document_views(docs)),
    ensures
        docs.len() == n,
        forall|i: int| 0 <= i < n ==> reads_as(#[trigger] docs[i], values[i]@),
    decreases n,
{
    let views = super::write::document_views(docs);
    assert(views.len() == docs.len());
    if n > 0 {
        let items = crate::json::json_items(values);
        let before = super::write::documents_of(items, (n - 1) as nat)->Ok_0;
        assert(views.drop_last() =~= before);
        assert(super::write::document_views(docs.drop_last()) =~= before);
        lemma_documents(docs.drop_last(), values, (n - 1) as nat);
        assert forall|i: int| 0 <= i < n implies reads_as(#[trigger] docs[i], values[i]@) by {
            if i < n - 1 {
                assert(docs.drop_last()[i] == docs[i]);
            } else {
                assert(views[i] == bson_members(docs[i]@));
            }
        }
    }
}

/// How many matches a step looks at, at the most.
pub open spec fn step_bound(step: WriteStep) -> Option<usize> {
    match step {
        WriteStep::Explain { stop_after, .. } => stop_after,
        WriteStep::Write { stop_after, .. } => stop_after,
    }
}

/// The filter of a step.
pub open spec fn step_filter(step: WriteStep) -> Option<Document> {
    match step {
        WriteStep::Explain { filter, .. } => filter,
        WriteStep::Write { filter, .. } => filter,
    }
}

/// An update without `multi` reaches one match and no more, and one with it reaches
/// every match, whether it is written or only explained.
pub proof fn an_update_reaches_one_match_or_every_match(
    body: Json,
    params: WriteParams,
    refused: WriteRefusals,
    step: WriteStep,
)
    requires
        call_ensures(update, (&body, params, refused), Ok::<WriteStep, ApiError>(step)),
    ensures
        !params.multi ==> step_bound(step) == Some(1usize),
        params.multi ==> step_bound(step) is None,
        params.explain <==> step is Explain,
        carries(step_filter(step), params.filter),
{
}

/// A delete reaches as much as an update does.
pub proof fn a_delete_reaches_one_match_or_every_match(
    params: WriteParams,
    refused: WriteRefusals,
    step: WriteStep,
)
    requires
        call_ensures(delete, (params, refused), Ok::<WriteStep, ApiError>(step)),
    ensures
        !params.multi ==> step_bound(step) == Some(1usize),
        params.multi ==> step_bound(step) is None,
        params.explain <==> step is Explain,
        carries(step_filter(step), params.filter),
{
}

/// An explained update looks where the same update writes: as far, and by the same
/// filter.
pub proof fn an_explained_update_looks_where_it_would_write(
    body: Json,
    written: WriteParams,
    explained: WriteParams,
    refused: WriteRefusals,
    write: WriteStep,
    explain: WriteStep,
)
    requires
        call_ensures(update, (&body, written, refused), Ok::<WriteStep, ApiError>(write)),
        call_ensures(update, (&body, explained, refused), Ok::<WriteStep, ApiError>(explain)),
        !written.explain,
        explained == (WriteParams { explain: true, ..written }),
    ensures
        write is Write,
        explain is Explain,
        step_bound(explain) == step_bound(write),
        carries(step_filter(explain), written.filter),
        carries(step_filter(write), written.filter),
{
}

/// An update writes the change that the request carries, under the version it is
/// conditional on; a delete carries no change.
pub proof fn a_write_makes_the_change_that_was_asked_for(
    body: Json,
    params: WriteParams,
    refused: WriteRefusals,
    updates: WriteStep,
    deletes: WriteStep,
)
    requires
        call_ensures(update, (&body, params, refused), Ok::<WriteStep, ApiError>(updates)),
        call_ensures(delete, (params, refused), Ok::<WriteStep, ApiError>(deletes)),
        !params.explain,
    ensures
        updates->change is Some,
        reads_as((updates->change->0).0, body@),
        all_read_as((updates->change->0).1@, params.array_filters@),
        is_condition(updates->expected, params.if_stamp),
        deletes->change is None,
        is_condition(deletes->expected, params.if_stamp),
{
    lemma_documents(
        (updates->change->0).1@,
        params.array_filters@,
        params.array_filters@.len(),
    );
}

/// A version names one document: a write to many, or one that is only explained,
/// is refused beside one. So is what the query language refuses, and nothing else
/// that reads as documents.
pub proof fn a_filtered_write_is_refused_only_for_a_reason(
    body: Json,
    params: WriteParams,
    refused: WriteRefusals,
    updates: Result<WriteStep, ApiError>,
    deletes: Result<WriteStep, ApiError>,
)
    requires
        call_ensures(update, (&body, params, refused), updates),
        call_ensures(delete, (params, refused), deletes),
    ensures
        params.if_stamp is Some && (params.multi || params.explain) ==> updates is Err
            && deletes is Err,
        params.if_stamp is Some && params.if_stamp->0 is Err ==> updates is Err && deletes is Err,
        params.filter is Some && refused.filter is Some ==> updates is Err && deletes is Err,
        refused.update is Some ==> updates is Err,
        ({
            &&& is_readable(params.filter) && refused.filter is None
            &&& params.if_stamp is None || !params.multi && !params.explain
                && params.if_stamp->0 is Ok
        }) ==> deletes is Ok && (is_readable(Some(body)) && params.array_filters@.len() == 0
            && refused.update is None ==> updates is Ok),
{
}

/// The answer to an update gives each count under its own name, and a version only
/// of a single document that was changed.
pub proof fn an_update_is_answered_with_its_counts(
    multi: bool,
    outcome: ModifyManyOutcome,
    body: Json,
)
    requires
        call_ensures(updated, (multi, &outcome), body),
    ensures
        has_field(body@, "matched"@, count_json(outcome.matched)),
        has_field(body@, "modified"@, count_json(outcome.modified)),
        has_field(body@, "commits"@, count_json(outcome.commits)),
        !multi && outcome.modified == 1 && outcome.stamp is Some ==> has_field(
            body@,
            "stamp"@,
            JsonView::String(outcome.stamp->0@),
        ),
        multi || outcome.modified != 1 || outcome.stamp is None ==> lacks_field(body@, "stamp"@),
{
    lemma_names();
    let m = body@->Object_0;
    assert(m[0].0 == "matched"@ && m[1].0 == "modified"@ && m[2].0 == "commits"@);
    if m.len() == 4 {
        assert(m[3].0 == "stamp"@);
    }
}

/// The answer to a delete counts what was removed.
pub proof fn a_delete_is_answered_with_its_counts(
    multi: bool,
    outcome: ModifyManyOutcome,
    body: Json,
)
    requires
        call_ensures(deleted, (multi, &outcome), body),
    ensures
        has_field(body@, "deleted"@, count_json(outcome.modified)),
        has_field(body@, "commits"@, count_json(outcome.commits)),
        !multi && outcome.modified == 1 && outcome.stamp is Some ==> has_field(
            body@,
            "stamp"@,
            JsonView::String(outcome.stamp->0@),
        ),
        multi || outcome.modified != 1 || outcome.stamp is None ==> lacks_field(body@, "stamp"@),
{
    lemma_names();
    let m = body@->Object_0;
    assert(m[0].0 == "deleted"@ && m[1].0 == "commits"@);
    if m.len() == 3 {
        assert(m[2].0 == "stamp"@);
    }
}

/// An explained write answers that nothing happened, with how its matches are
/// found.
pub proof fn an_explained_write_changes_nothing(
    stats: super::scan::QueryStats,
    updates: Json,
    deletes: Json,
)
    requires
        call_ensures(explained_update, (&stats,), updates),
        call_ensures(explained_delete, (&stats,), deletes),
    ensures
        has_field(updates@, "matched"@, count_json(0)),
        has_field(updates@, "modified"@, count_json(0)),
        has_field(updates@, "commits"@, count_json(0)),
        has_field(deletes@, "deleted"@, count_json(0)),
        has_field(deletes@, "commits"@, count_json(0)),
        exists|explain: JsonView| #[trigger]
            has_field(updates@, "explain"@, explain) && has_field(deletes@, "explain"@, explain)
                && explains(explain, stats),
{
    lemma_names();
    let u = updates@->Object_0;
    let d = deletes@->Object_0;
    assert(u[0].0 == "matched"@ && u[1].0 == "modified"@ && u[2].0 == "commits"@ && u[3].0
        == "explain"@);
    assert(d[0].0 == "deleted"@ && d[1].0 == "commits"@ && d[2].0 == "explain"@);
    let explain = u[3].1;
    lemma_explains(explain, stats);
    assert(has_field(updates@, "explain"@, explain));
    assert(has_field(deletes@, "explain"@, explain));
}

/// A replace is asked of the document its path names, with the body, the upsert
/// and the version of the request.
pub proof fn a_replace_asks_for_what_the_request_says(
    id: &str,
    body: Json,
    params: ReplaceParams,
    request: Result<ReplaceRequest, ApiError>,
)
    requires
        call_ensures(replace, (id, &body, params), request),
    ensures
        request is Ok ==> {
            &&& reads_as(request->Ok_0.document, body@)
            &&& request->Ok_0.upsert == params.upsert
            &&& is_condition(request->Ok_0.expected, params.if_stamp)
        },
        request is Ok <==> is_readable(Some(body)) && (params.if_stamp is Some
            ==> params.if_stamp->0 is Ok),
{
}

/// A replace and a delete by the same path name the same document.
pub proof fn a_path_names_one_document(
    id: &str,
    body: Json,
    params: ReplaceParams,
    request: ReplaceRequest,
    if_stamp: Option<Result<String, CoreError>>,
    removal: (super::read::DocId, Option<String>),
)
    requires
        call_ensures(replace, (id, &body, params), Ok::<ReplaceRequest, ApiError>(request)),
        call_ensures(
            delete_by_id,
            (id, if_stamp),
            Ok::<(super::read::DocId, Option<String>), ApiError>(removal),
        ),
    ensures
        request.id@ == removal.0@,
        is_condition(removal.1, if_stamp),
{
}

/// The answer to a replace says what it did, in counts.
pub proof fn a_replace_is_answered_with_what_it_did(outcome: WriteOutcome, body: Json)
    requires
        call_ensures(replaced, (&outcome,), body),
    ensures
        has_field(
            body@,
            "matched"@,
            count_json(
                if outcome.matched {
                    1
                } else {
                    0
                },
            ),
        ),
        has_field(
            body@,
            "modified"@,
            count_json(
                if outcome.modified {
                    1
                } else {
                    0
                },
            ),
        ),
        has_field(body@, "upserted"@, JsonView::Bool(outcome.upserted)),
        outcome.stamp is Some ==> has_field(
            body@,
            "stamp"@,
            JsonView::String(outcome.stamp->0@),
        ),
        outcome.stamp is None ==> lacks_field(body@, "stamp"@),
{
    lemma_names();
    let m = body@->Object_0;
    assert(m[0].0 == "matched"@ && m[1].0 == "modified"@ && m[2].0 == "upserted"@);
    if m.len() == 4 {
        assert(m[3].0 == "stamp"@);
    }
}

/// The answer to a delete by id counts one document where there was one, and gives
/// the version of its removal.
pub proof fn a_delete_by_id_is_answered_with_what_it_did(stamp: Option<&String>, body: Json)
    requires
        call_ensures(deleted_by_id, (stamp,), body),
    ensures
        stamp is Some ==> has_field(body@, "deleted"@, count_json(1)) && has_field(
            body@,
            "stamp"@,
            JsonView::String(stamp->0@),
        ),
        stamp is None ==> has_field(body@, "deleted"@, count_json(0)) && lacks_field(
            body@,
            "stamp"@,
        ),
{
    lemma_names();
    let m = body@->Object_0;
    assert(m[0].0 == "deleted"@);
    if m.len() == 2 {
        assert(m[1].0 == "stamp"@);
    }
}

/// An insert is answered with the id it was stored under and its version, and a
/// bulk insert with each of them in the place of its document.
pub proof fn an_insert_is_answered_with_its_ids(
    id: Bson,
    stamp: &str,
    one: Json,
    stored: Vec<(Bson, String)>,
    many: Json,
    i: int,
)
    requires
        call_ensures(inserted, (&id, stamp), one),
        call_ensures(inserted_many, (&stored,), many),
        0 <= i < stored@.len(),
    ensures
        has_field(one@, "insertedId"@, json_of(id@)),
        has_field(one@, "stamp"@, JsonView::String(stamp@)),
        has_field(many@, "inserted"@, count_json(stored@.len() as u64)),
        exists|ids: Seq<JsonView>| #[trigger]
            has_field(many@, "insertedIds"@, JsonView::Array(ids)) && ids.len() == stored@.len()
                && ids[i] == json_of(stored@[i].0@),
        exists|stamps: Seq<JsonView>| #[trigger]
            has_field(many@, "stamps"@, JsonView::Array(stamps)) && stamps.len()
                == stored@.len() && stamps[i] == JsonView::String(stored@[i].1@),
{
    lemma_names();
    let len: usize = stored.len();
    let o = one@->Object_0;
    let m = many@->Object_0;
    assert(o[0].0 == "insertedId"@ && o[1].0 == "stamp"@);
    assert(m[0].0 == "inserted"@ && m[1].0 == "insertedIds"@ && m[2].0 == "stamps"@);
    let ids = m[1].1->Array_0;
    let stamps = m[2].1->Array_0;
    assert(has_field(many@, "insertedIds"@, JsonView::Array(ids)));
    assert(has_field(many@, "stamps"@, JsonView::Array(stamps)));
}

/// Whether an explanation says how a read went: what was examined and matched, by
/// which index, and by what kind of walk.
pub open spec fn explains(explain: JsonView, stats: super::scan::QueryStats) -> bool {
    &&& has_field(explain, "documentsExamined"@, count_json(stats.examined as u64))
    &&& has_field(explain, "documentsMatched"@, count_json(stats.matched as u64))
    &&& has_field(explain, "indexFieldsUsed"@, count_json(stats.fields_used as u64))
    &&& stats.index is Some ==> has_field(
        explain,
        "index"@,
        JsonView::String(stats.index->0@),
    )
    &&& stats.index is None ==> has_field(explain, "index"@, JsonView::Null)
    &&& stats.id_lookup ==> has_field(explain, "strategy"@, JsonView::String("idLookup"@))
    &&& !stats.id_lookup && stats.index is None ==> has_field(
        explain,
        "strategy"@,
        JsonView::String("collectionScan"@),
    )
    &&& !stats.id_lookup && stats.index is Some && stats.probes > 1 ==> has_field(
        explain,
        "strategy"@,
        JsonView::String("indexUnion"@),
    )
    &&& !stats.id_lookup && stats.index is Some && stats.probes <= 1 ==> has_field(
        explain,
        "strategy"@,
        JsonView::String("index"@),
    )
    &&& stats.probes > 1 ==> has_field(explain, "probes"@, count_json(stats.probes as u64))
    &&& stats.probes <= 1 ==> lacks_field(explain, "probes"@)
    &&& stats.index_entries is Some ==> has_field(
        explain,
        "indexEntriesRead"@,
        count_json(stats.index_entries->0 as u64),
    )
    &&& stats.index_entries is None ==> lacks_field(explain, "indexEntriesRead"@)
    &&& stats.unkeyed is Some ==> has_field(
        explain,
        "unkeyedCandidates"@,
        count_json(stats.unkeyed->0 as u64),
    )
    &&& stats.unkeyed is None ==> lacks_field(explain, "unkeyedCandidates"@)
    &&& stats.undecidable is Some ==> has_field(
        explain,
        "undecidableCandidates"@,
        count_json(stats.undecidable->0 as u64),
    )
    &&& stats.undecidable is None ==> lacks_field(explain, "undecidableCandidates"@)
}

/// An explanation says how the read went.
pub proof fn an_explanation_says_how_the_read_went(
    stats: super::scan::QueryStats,
    explain: Json,
)
    requires
        call_ensures(super::scan::QueryStats::to_json, (&stats,), explain),
    ensures
        explains(explain@, stats),
{
    lemma_explains(explain@, stats);
}

#[verifier::spinoff_prover]
pub proof fn lemma_explains(explain: JsonView, stats: super::scan::QueryStats)
    requires
        explain == JsonView::Object(super::scan::explained(stats)),
    ensures
        explains(explain, stats),
{
    reveal_strlit("strategy");
    reveal_strlit("index");
    reveal_strlit("indexFieldsUsed");
    reveal_strlit("documentsExamined");
    reveal_strlit("documentsMatched");
    reveal_strlit("probes");
    reveal_strlit("indexEntriesRead");
    reveal_strlit("unkeyedCandidates");
    reveal_strlit("undecidableCandidates");
    let m = explain->Object_0;
    assert("strategy"@.len() == 8 && "index"@.len() == 5 && "indexFieldsUsed"@.len() == 15);
    assert("documentsExamined"@.len() == 17 && "documentsMatched"@.len() == 16);
    assert("probes"@.len() == 6 && "indexEntriesRead"@.len() == 16);
    assert("unkeyedCandidates"@.len() == 17 && "undecidableCandidates"@.len() == 21);
    assert("documentsExamined"@[0] == 'd' && "unkeyedCandidates"@[0] == 'u');
    assert("documentsMatched"@[0] == 'd' && "indexEntriesRead"@[0] == 'i');
    let a: int = if stats.probes > 1 {
        6
    } else {
        5
    };
    let b: int = if stats.index_entries is Some {
        a + 1
    } else {
        a
    };
    let c: int = if stats.unkeyed is Some {
        b + 1
    } else {
        b
    };
    let d: int = if stats.undecidable is Some {
        c + 1
    } else {
        c
    };
    assert(m.len() == d);
    assert(m[0].0 == "strategy"@ && m[1].0 == "index"@ && m[2].0 == "indexFieldsUsed"@);
    assert(m[3].0 == "documentsExamined"@ && m[4].0 == "documentsMatched"@);
    if stats.probes > 1 {
        assert(m[5].0 == "probes"@);
    }
    if stats.index_entries is Some {
        assert(m[a].0 == "indexEntriesRead"@);
    }
    if stats.unkeyed is Some {
        assert(m[b].0 == "unkeyedCandidates"@);
    }
    if stats.undecidable is Some {
        assert(m[c].0 == "undecidableCandidates"@);
    }
    assert forall|i: int| 5 <= i < d implies (i == 5 && stats.probes > 1) || (i == a
        && stats.index_entries is Some) || (i == b && stats.unkeyed is Some) || (
    #[trigger] m[i]).0 == "undecidableCandidates"@ by {}
    assert(has_field(explain, "strategy"@, m[0].1));
    assert(has_field(explain, "index"@, m[1].1));
    assert(has_field(explain, "indexFieldsUsed"@, m[2].1));
    assert(has_field(explain, "documentsExamined"@, m[3].1));
    assert(has_field(explain, "documentsMatched"@, m[4].1));
    if stats.probes > 1 {
        assert(has_field(explain, "probes"@, m[5].1));
    } else {
        assert(lacks_field(explain, "probes"@));
    }
    if stats.index_entries is Some {
        assert(has_field(explain, "indexEntriesRead"@, m[a].1));
    } else {
        assert(lacks_field(explain, "indexEntriesRead"@));
    }
    if stats.unkeyed is Some {
        assert(has_field(explain, "unkeyedCandidates"@, m[b].1));
    } else {
        assert(lacks_field(explain, "unkeyedCandidates"@));
    }
    if stats.undecidable is Some {
        assert(has_field(explain, "undecidableCandidates"@, m[c].1));
    } else {
        assert(lacks_field(explain, "undecidableCandidates"@));
    }
}

/// An insert stores the document that was given, and a bulk insert each of them in
/// its place: all of a thousand at the most, or none.
pub proof fn an_insert_stores_what_was_given(
    document: Json,
    one: Result<Document, ApiError>,
    documents: Vec<Json>,
    many: Result<Vec<Document>, ApiError>,
)
    requires
        call_ensures(insert, (&document,), one),
        call_ensures(insert_many, (&documents,), many),
    ensures
        one is Ok <==> is_readable(Some(document)),
        one is Ok ==> reads_as(one->Ok_0, document@),
        documents@.len() > 1000 ==> many is Err && many->Err_0.status == 400,
        many is Ok ==> all_read_as(many->Ok_0@, documents@),
        documents@.len() <= 1000 && (forall|i: int|
            0 <= i < documents@.len() ==> is_readable(Some(#[trigger] documents@[i])))
            ==> many is Ok,
{
    lemma_batch(documents@, documents@.len());
    if many is Ok {
        assert forall|i: int| 0 <= i < documents@.len() implies reads_as(
            #[trigger] many->Ok_0@[i],
            documents@[i]@,
        ) by {
            let views = super::write::document_views(many->Ok_0@);
            assert(views[i] == bson_members(many->Ok_0@[i]@));
        }
    }
}

proof fn lemma_batch(values: Seq<Json>, n: nat)
    requires
        n <= values.len(),
    ensures
        super::write::batch_of(values, n) is Ok <==> forall|i: int|
            0 <= i < n ==> is_readable(Some(#[trigger] values[i])),
        super::write::batch_of(values, n) is Ok ==> super::write::batch_of(
            values,
            n,
        )->Ok_0.len() == n && forall|i: int|
            0 <= i < n ==> crate::json::bson_of((#[trigger] values[i])@) == Ok::<
                BsonView,
                crate::error::ApiErrorView,
            >(BsonView::Document(super::write::batch_of(values, n)->Ok_0[i])),
    decreases n,
{
    if n > 0 {
        lemma_batch(values, (n - 1) as nat);
        let last = values[n - 1];
        assert(is_readable(Some(last)) <==> super::write::document_of(last@) is Ok);
        if super::write::batch_of(values, n) is Ok {
            assert forall|i: int| 0 <= i < n implies is_readable(Some(#[trigger] values[i])) by {
                if i == n - 1 {
                    assert(values[i] == last);
                }
            }
        }
    }
}

/// A batch that cannot be read is refused for its first document that cannot, by the
/// place it stands in.
pub proof fn a_bulk_insert_is_refused_by_its_first_bad_document(
    documents: Vec<Json>,
    many: Result<Vec<Document>, ApiError>,
    i: int,
)
    requires
        call_ensures(insert_many, (&documents,), many),
        documents@.len() <= 1000,
        0 <= i < documents@.len(),
        forall|k: int| 0 <= k < i ==> is_readable(Some(#[trigger] documents@[k])),
        !is_readable(Some(documents@[i])),
    ensures
        many is Err,
        crate::text::begins_with(
            many->Err_0.message@,
            "document at index "@ + crate::text::decimal(i as nat) + ": "@,
        ),
{
    lemma_batch(documents@, i as nat);
    lemma_batch(documents@, (i + 1) as nat);
    assert(super::write::batch_of(documents@, (i + 1) as nat) is Err);
    super::write::lemma_batch_refused(documents@, (i + 1) as nat);
    let e = super::write::document_of(documents@[i]@)->Err_0;
    let prefix = "document at index "@ + crate::text::decimal(i as nat) + ": "@;
    assert(many->Err_0.message@ == prefix + e.message);
    assert(many->Err_0.message@.subrange(0, prefix.len() as int) =~= prefix);
}

/// A read and a write look under the keys that are pinned where any are, in the
/// planned index where there are none, and through the collection where there is no
/// index either.
pub proof fn the_tightest_way_is_taken(
    keys: Option<Vec<Vec<u8>>>,
    plan: Option<IndexPlan>,
    candidates: Candidates,
    probes: Option<Vec<Probe>>,
    scan: Option<IndexScan>,
    records: Vec<Candidate>,
    access: Access,
)
    requires
        call_ensures(candidates_for, (keys, plan), candidates),
        call_ensures(access_of, (probes, scan, records), access),
    ensures
        keys is Some ==> candidates == Candidates::Keys(keys->0),
        keys is None && plan is Some ==> candidates == (Candidates::Index {
            name: plan->0.name,
            both_bounds: plan->0.both_bounds,
        }),
        keys is None && plan is None ==> candidates == Candidates::Scan,
        probes is Some ==> access == Access::Keys(probes->0),
        probes is None && scan is Some ==> access == (Access::Index { scan: scan->0, records }),
        probes is None && scan is None ==> access == Access::Scan(records),
{
}

/// A version that a write is conditional on is the one that decoded, and one that did
/// not decode is refused for why.
pub proof fn a_version_is_what_decoded(
    decoded: Option<Result<String, CoreError>>,
    expected: Result<Option<String>, ApiError>,
)
    requires
        call_ensures(parse_if_stamp, (decoded,), expected),
    ensures
        expected is Ok ==> is_condition(expected->Ok_0, decoded),
        expected is Err <==> decoded is Some && decoded->0 is Err,
        expected is Err ==> expected->Err_0@ == crate::error::core_refusal(decoded->0->Err_0),
{
}

/// A part of a request reads as its document, or is refused for why it cannot be used.
pub proof fn a_part_reads_as_its_document(
    part: Option<Json>,
    refused: Option<CoreError>,
    doc: Result<Option<Document>, ApiError>,
)
    requires
        call_ensures(read_part, (&part, refused), doc),
    ensures
        doc is Ok ==> carries(doc->Ok_0, part),
        doc is Ok <==> is_readable(part) && (part is Some ==> refused is None),
{
}

} // verus!
