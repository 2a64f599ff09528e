//! What a request that cannot be carried out is answered.

use vstd::prelude::*;
use vstd::string::*;

use super::laws::is_readable;
use super::modify::{find_and_modify, FindAndModifySpec, ModifyPlan, Refusals, ReturnDocument};
use super::page_laws::{asked_offset, asked_size, keeps_key_order};
use super::pipeline::source_within;
use super::read::{find, FindParams, FindReader, QueryRead};
use super::scan::{Access, Held};
use super::write::{delete, update, WriteParams, WriteRefusals, WriteStep};
use crate::error::{core_refusal, ApiError, CoreError, ErrorCode};
use crate::json::{bson_of, Json};
use crate::text::decimal;

verus! {

/// Whether a request is answered that it is at fault, in these words.
pub open spec fn is_fault(e: ApiError, words: Seq<char>) -> bool {
    e.status == 400 && e@.code == ErrorCode::BadRequest && e@.message == words
}

/// Whether a part of a request was given and cannot be used: it is no document, or
/// the query language refuses it.
pub open spec fn is_bad(part: Option<Json>, refused: Option<CoreError>) -> bool {
    part is Some && (!is_readable(part) || refused is Some)
}

/// Whether an answer is about this part: why it reads as nothing, that it is no
/// document, or why the query language refuses it.
pub open spec fn is_about(e: ApiError, part: Option<Json>, refused: Option<CoreError>) -> bool {
    if bson_of(part->0@) is Err {
        e@ == bson_of(part->0@)->Err_0
    } else if !is_readable(part) {
        is_fault(e, "expected a JSON object"@)
    } else {
        e@ == core_refusal(refused->0)
    }
}

/// A find is answered for the first of its parts that cannot be used: its filter, its
/// sort, its projection. Beside them a cursor stands with no offset and with no other
/// order, and a sort holds only so many documents.
pub proof fn a_find_is_answered_for_its_first_fault<T: Held>(
    params: FindParams,
    read: QueryRead,
    started: Result<FindReader<T>, ApiError>,
    access: Access,
    found: Result<Json, ApiError>,
)
    requires
        call_ensures(FindReader::<T>::start, (params, read), started),
        call_ensures(find, (params, read, &access), found),
    ensures
        ({
            let filter = is_bad(params.filter, read.filter);
            let sort = is_bad(params.sort, read.sort);
            let projection = is_bad(params.projection, read.projection);
            let parts = filter || sort || projection;
            let reorders = !keeps_key_order(read.order@);
            let skipping = params.cursor is Some && asked_offset(params) > 0;
            let sorting = params.cursor is Some && reorders;
            let undecoded = params.cursor is Some && params.cursor->0 is Err;
            let window = asked_offset(params) + asked_size(params);
            &&& filter ==> is_about(started->Err_0, params.filter, read.filter)
            &&& !filter && sort ==> is_about(started->Err_0, params.sort, read.sort)
            &&& !filter && !sort && projection ==> is_about(
                started->Err_0,
                params.projection,
                read.projection,
            )
            &&& !parts && skipping ==> is_fault(
                started->Err_0,
                "`cursor` and `skip` cannot be combined: a cursor already says where to resume"@,
            )
            &&& !parts && !skipping && sorting ==> is_fault(
                started->Err_0,
                "`cursor` pages in _id order, so it takes no `sort` other than {\"_id\": 1}. Sorting by another field still uses `skip`"@,
            )
            &&& !parts && !skipping && !sorting && undecoded ==> started->Err_0@ == core_refusal(
                params.cursor->0->Err_0,
            )
            &&& !parts && !skipping && !sorting && !undecoded && reorders && window > 10_000
                && window <= usize::MAX ==> is_fault(
                started->Err_0,
                "a sorted find holds `skip + limit` documents while it sorts, which may not exceed "@
                    + decimal(10_000) + " (got "@ + decimal(window)
                    + "). To page deeper, sort by {\"_id\": 1} and follow `nextCursor`, or narrow the filter on the sort field to where the last page ended"@,
            )
            &&& started is Err <==> parts || skipping || sorting || undecoded || reorders && window
                > 10_000
            &&& started is Err ==> found is Err && found->Err_0@ == started->Err_0@
        }),
{
    let asked = super::read::paging(params, read);
    assert(asked.reorders() == !keeps_key_order(read.order@));
}

/// A write by filter is answered for the first of its faults: its filter, its array
/// filters and its update, and then the version it is conditional on.
pub proof fn a_filtered_write_is_answered_for_its_first_fault(
    body: Json,
    params: WriteParams,
    refused: WriteRefusals,
    updates: Result<WriteStep, ApiError>,
    deletes: Result<WriteStep, ApiError>,
)
    requires
        call_ensures(update, (&body, params, refused), updates),
        call_ensures(delete, (params, refused), deletes),
    ensures
        ({
            let filter = is_bad(params.filter, refused.filter);
            let one = params.array_filters@.len() > 0 && !is_readable(
                Some(params.array_filters@[0]),
            );
            let none = params.array_filters@.len() == 0;
            let change = is_bad(Some(body), refused.update);
            let conditional = params.if_stamp is Some;
            &&& filter ==> is_about(updates->Err_0, params.filter, refused.filter) && is_about(
                deletes->Err_0,
                params.filter,
                refused.filter,
            )
            &&& !filter && one ==> is_about(updates->Err_0, Some(params.array_filters@[0]), None)
            &&& !filter && none && change ==> is_about(updates->Err_0, Some(body), refused.update)
            &&& !filter && conditional && params.multi ==> is_fault(
                deletes->Err_0,
                "`if_stamp` names one document's version, so it cannot be combined with `multi: true`"@,
            )
            &&& !filter && conditional && !params.multi && params.explain ==> is_fault(
                deletes->Err_0,
                "`if_stamp` makes the write conditional on a version explain does not check, so it cannot be combined with `explain: true`"@,
            )
            &&& !filter && conditional && !params.multi && !params.explain
                && params.if_stamp->0 is Err ==> deletes->Err_0@ == core_refusal(
                params.if_stamp->0->Err_0,
            )
            &&& deletes is Err <==> filter || conditional && (params.multi || params.explain
                || params.if_stamp->0 is Err)
            &&& !filter && none && !change ==> (updates is Err <==> deletes is Err) && (
            updates is Err ==> updates->Err_0@ == deletes->Err_0@)
        }),
{
    if params.array_filters@.len() > 0 && !is_readable(Some(params.array_filters@[0])) {
        lemma_first_is_none(params.array_filters@, params.array_filters@.len());
    }
}

proof fn lemma_first_is_none(values: Seq<Json>, n: nat)
    requires
        1 <= n <= values.len(),
        !is_readable(Some(values[0])),
    ensures
        super::write::documents_of(crate::json::json_items(values), n) == Err::<
            Seq<Seq<(Seq<char>, crate::json::BsonView)>>,
            crate::error::ApiErrorView,
        >(super::write::document_of(values[0]@)->Err_0),
    decreases n,
{
    let items = crate::json::json_items(values);
    assert(items[0] == values[0]@);
    if n > 1 {
        lemma_first_is_none(values, (n - 1) as nat);
    } else {
        assert(super::write::documents_of(items, 0) is Ok);
    }
}

/// A `find_and_modify` is answered for the first of its faults: what it asks for at
/// once, then its parts in turn, its upsert, and the version it is conditional on.
pub proof fn a_modification_is_answered_for_its_first_fault(
    spec: FindAndModifySpec,
    refused: Refusals,
    plan: Result<ModifyPlan, ApiError>,
)
    requires
        call_ensures(find_and_modify, (spec, refused), plan),
    ensures
        ({
            let both = spec.remove && spec.update is Some;
            let neither = !spec.remove && spec.update is None;
            let inserting = spec.remove && spec.upsert;
            let later = spec.remove && spec.return_document == ReturnDocument::After;
            let shape = both || neither || inserting || later;
            let filter = is_bad(spec.filter, refused.filter);
            let sort = is_bad(spec.sort, refused.sort);
            let projection = is_bad(spec.projection, refused.projection);
            let parts = filter || sort || projection;
            let one = spec.update is Some && spec.array_filters@.len() > 0 && !is_readable(
                Some(spec.array_filters@[0]),
            );
            let none = spec.array_filters@.len() == 0;
            let change = is_bad(spec.update, refused.update);
            let seed = spec.upsert && refused.upsert is Some;
            let undecoded = spec.if_stamp is Some && spec.if_stamp->0 is Err;
            &&& both ==> is_fault(
                plan->Err_0,
                "find_and_modify takes either `update` or `remove: true`, not both"@,
            )
            &&& neither ==> is_fault(
                plan->Err_0,
                "find_and_modify needs an `update`, or `remove: true`"@,
            )
            &&& !both && inserting ==> is_fault(
                plan->Err_0,
                "`remove` cannot be combined with `upsert`"@,
            )
            &&& !both && !inserting && later ==> is_fault(
                plan->Err_0,
                "`remove` has no document after it; use returnDocument \"before\""@,
            )
            &&& !shape && filter ==> is_about(plan->Err_0, spec.filter, refused.filter)
            &&& !shape && !filter && sort ==> is_about(plan->Err_0, spec.sort, refused.sort)
            &&& !shape && !filter && !sort && projection ==> is_about(
                plan->Err_0,
                spec.projection,
                refused.projection,
            )
            &&& !shape && !parts && one ==> is_about(
                plan->Err_0,
                Some(spec.array_filters@[0]),
                None,
            )
            &&& !shape && !parts && none && change ==> is_about(
                plan->Err_0,
                spec.update,
                refused.update,
            )
            &&& !shape && !parts && none && !change && seed ==> plan->Err_0@ == core_refusal(
                refused.upsert->0,
            )
            &&& !shape && !parts && none && !change && !seed && undecoded ==> plan->Err_0@
                == core_refusal(spec.if_stamp->0->Err_0)
            &&& !shape && !parts && none && !change && !seed && !undecoded && spec.if_stamp is Some
                && spec.upsert ==> is_fault(
                plan->Err_0,
                "`if_stamp` cannot be combined with `upsert`"@,
            )
            &&& shape || parts || one || change || seed || undecoded || spec.if_stamp is Some
                && spec.upsert ==> plan is Err
        }),
{
    if spec.array_filters@.len() > 0 && !is_readable(Some(spec.array_filters@[0])) {
        lemma_first_is_none(spec.array_filters@, spec.array_filters@.len());
    }
}

/// A pipeline over more than its ceiling is answered what to narrow, and by how much.
pub proof fn a_source_too_large_is_named(
    found: usize,
    leading: bool,
    max: usize,
    within: Result<(), ApiError>,
)
    requires
        call_ensures(source_within, (found, leading, max), within),
        found > max,
    ensures
        leading ==> is_fault(
            within->Err_0,
            "the leading $match"@ + " admits more than "@ + decimal(max as nat)
                + " documents, the pipeline limit. Narrow it with a more selective $match"@,
        ),
        !leading ==> is_fault(
            within->Err_0,
            "the source collection"@ + " admits more than "@ + decimal(max as nat)
                + " documents, the pipeline limit. Narrow it with a more selective $match"@,
        ),
{
}

} // verus!
