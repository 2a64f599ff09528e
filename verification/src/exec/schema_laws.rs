//! What callers rely on of databases, collections and indexes.

use vstd::prelude::*;
use vstd::string::*;

use super::laws::{carries, count_json, document_json, has_field, lacks_field};
use super::schema::{
    authorize, collection, confirm_cap, confirmation_to_json, create_collection, create_index,
    document_id, drop_collection, drop_database, drop_index, dropped, groups, index_to_json,
    list_collections, list_databases, list_indexes, parse_filter, readable_names, shadow_ids,
    shadow_of, stored_documents, violations, with_confirmation, DdlConfirmation, Enforcement, Held,
    IndexFieldSpec, IndexMeta, IndexRequest, IndexSpec, Listed, Violation,
};
use crate::error::{ApiError, CoreError, CoreErrorKind, ErrorCode, Retry, StorageError};
use crate::json::{bson_members, json_of, lookup, Bson, Document, Json, JsonView};

verus! {

/// A caller that may not act on a collection is refused in one way, whether there is
/// such a collection or not; one that may gets what was found.
pub proof fn a_denied_caller_learns_nothing<M>(
    found: Result<M, StorageError>,
    other: Result<M, StorageError>,
    peers: bool,
    db: &str,
    coll: &str,
    denied: Result<M, ApiError>,
    denied_too: Result<M, ApiError>,
    allowed: Result<M, ApiError>,
)
    requires
        call_ensures(authorize::<M>, (false, found, peers, db, coll), denied),
        call_ensures(authorize::<M>, (false, other, !peers, db, coll), denied_too),
        call_ensures(authorize::<M>, (true, found, peers, db, coll), allowed),
    ensures
        denied is Err && denied->Err_0.status == 403 && denied->Err_0.code
            == ErrorCode::Forbidden,
        denied_too is Err && denied_too->Err_0@ == denied->Err_0@,
        allowed is Ok <==> found is Ok,
        allowed is Ok ==> allowed->Ok_0 == found->Ok_0,
{
}

/// A collection that is not here is looked for elsewhere only where there are peers
/// that may have it.
pub proof fn a_missing_collection_is_elsewhere_only_among_peers<M>(
    e: CoreError,
    peers: bool,
    db: &str,
    coll: &str,
    answer: Result<M, ApiError>,
)
    requires
        e.kind == CoreErrorKind::CollectionNotFound,
        call_ensures(
            collection::<M>,
            (Err::<M, StorageError>(StorageError::Core(e)), peers, db, coll),
            answer,
        ),
    ensures
        answer is Err,
        answer->Err_0.status == 404,
        answer->Err_0.code == ErrorCode::NotFound,
        answer->Err_0@.retry() == Retry::Elsewhere <==> peers,
{
}

/// The names a caller may read, in the order they are listed in.
pub open spec fn names_shown(all: Seq<Listed>) -> Seq<JsonView> {
    all.filter(|l: Listed| l.readable).map_values(|l: Listed| JsonView::String(l.name@))
}

proof fn lemma_names_shown(all: Seq<Listed>, n: nat)
    requires
        n <= all.len(),
    ensures
        readable_names(all, n) == names_shown(all.take(n as int)),
    decreases n,
{
    reveal(Seq::filter);
    let pick = |l: Listed| l.readable;
    let name = |l: Listed| JsonView::String(l.name@);
    if n > 0 {
        lemma_names_shown(all, (n - 1) as nat);
        assert(all.take(n as int).drop_last() =~= all.take(n - 1));
        let before = all.take(n - 1).filter(pick);
        if all[n - 1].readable {
            assert(all.take(n as int).filter(pick) == before.push(all[n - 1]));
            assert(before.push(all[n - 1]).map_values(name) =~= before.map_values(name).push(
                JsonView::String(all[n - 1].name@),
            ));
        }
    } else {
        assert(names_shown(all.take(0)) =~= Seq::<JsonView>::empty());
    }
}

/// A listing shows what its caller may read, in order, and nothing else.
pub proof fn a_listing_shows_what_its_caller_may_read(
    all: Vec<Listed>,
    missing: Option<CoreError>,
    databases: Json,
    collections: Result<Json, ApiError>,
)
    requires
        call_ensures(list_databases, (&all,), databases),
        call_ensures(list_collections, (missing, &all), collections),
    ensures
        has_field(databases@, "databases"@, JsonView::Array(names_shown(all@))),
        collections is Ok <==> missing is None,
        collections is Ok ==> has_field(
            collections->Ok_0@,
            "collections"@,
            JsonView::Array(names_shown(all@)),
        ),
{
    lemma_names_shown(all@, all@.len());
    assert(all@.take(all@.len() as int) =~= all@);
    assert(databases@->Object_0[0].0 == "databases"@);
    if collections is Ok {
        assert(collections->Ok_0@->Object_0[0].0 == "collections"@);
    }
}

/// A system database is dropped for no one, and no database for a caller that may
/// not. A drop strands the vectors of every shadow it takes with it.
pub proof fn a_drop_is_refused_or_strands_every_shadow(
    db: &str,
    allowed: bool,
    held: Vec<Held>,
    answer: Result<Vec<u64>, ApiError>,
)
    requires
        call_ensures(drop_database, (db, allowed, &held), answer),
    ensures
        answer is Ok <==> allowed && !(db@.len() >= 2 && db@[0] == '_' && db@[1] == '_'),
        answer is Ok ==> answer->Ok_0@ == held@.filter(|h: Held| h.is_shadow).map_values(
            |h: Held| h.id,
        ),
        answer is Err && !allowed && !(db@.len() >= 2 && db@[0] == '_' && db@[1] == '_')
            ==> answer->Err_0.status == 403,
{
    reveal_strlit("__");
    if db@.len() >= 2 {
        assert(db@.subrange(0, 2)[0] == db@[0] && db@.subrange(0, 2)[1] == db@[1]);
        if db@[0] == '_' && db@[1] == '_' {
            assert(db@.subrange(0, 2) =~= "__"@);
        }
    }
    lemma_shadows(held@, held@.len());
    assert(held@.take(held@.len() as int) =~= held@);
}

proof fn lemma_shadows(all: Seq<Held>, n: nat)
    requires
        n <= all.len(),
    ensures
        shadow_ids(all, n) == all.take(n as int).filter(|h: Held| h.is_shadow).map_values(
            |h: Held| h.id,
        ),
    decreases n,
{
    reveal(Seq::filter);
    let pick = |h: Held| h.is_shadow;
    let id = |h: Held| h.id;
    if n > 0 {
        lemma_shadows(all, (n - 1) as nat);
        assert(all.take(n as int).drop_last() =~= all.take(n - 1));
        let before = all.take(n - 1).filter(pick);
        if all[n - 1].is_shadow {
            assert(all.take(n as int).filter(pick) == before.push(all[n - 1]));
            assert(before.push(all[n - 1]).map_values(id) =~= before.map_values(id).push(
                all[n - 1].id,
            ));
        }
    } else {
        assert(all.take(0).filter(pick).map_values(id) =~= Seq::<u64>::empty());
    }
}

/// A dropped collection strands its shadow's vectors, or its own where it is one.
pub proof fn a_dropped_collection_strands_its_vectors(
    allowed: bool,
    is_shadow: bool,
    own: u64,
    shadow: u64,
    answer: Result<u64, ApiError>,
    id: u64,
)
    requires
        call_ensures(drop_collection, (allowed, is_shadow, own, shadow), answer),
        call_ensures(shadow_of, (is_shadow, own, shadow), id),
    ensures
        answer is Ok <==> allowed,
        answer is Ok ==> answer->Ok_0 == id,
        is_shadow ==> id == own,
        !is_shadow ==> id == shadow,
        answer is Err ==> answer->Err_0.status == 403,
{
}

/// Changes to the schema are answered with what they did.
pub proof fn a_schema_change_is_answered_with_what_it_did(
    name: &str,
    id: u64,
    created: Json,
    what: Json,
    gone: Json,
    removed: bool,
    index_gone: Json,
)
    requires
        call_ensures(create_collection, (name, id), created),
        call_ensures(dropped, (what,), gone),
        call_ensures(drop_index, (removed,), index_gone),
    ensures
        has_field(created@, "created"@, JsonView::String(name@)),
        has_field(created@, "id"@, count_json(id)),
        has_field(gone@, "dropped"@, what@),
        has_field(index_gone@, "dropped"@, JsonView::Bool(removed)),
{
    reveal_strlit("created");
    reveal_strlit("id");
    assert(created@->Object_0[0].0 == "created"@ && created@->Object_0[1].0 == "id"@);
    assert(gone@->Object_0[0].0 == "dropped"@);
    assert(index_gone@->Object_0[0].0 == "dropped"@);
}

/// An index is asked for as its request says: its fields, its uniqueness, its name,
/// its expiry and its filter; and its enforcement by the words "local", which is
/// also meant where it says nothing, and "coordinated". Any other word is refused.
pub proof fn an_index_is_asked_for_as_its_request_says(
    allowed: bool,
    spec: IndexSpec,
    request: Result<IndexRequest, ApiError>,
)
    requires
        call_ensures(create_index, (allowed, spec), request),
    ensures
        request is Ok ==> {
            let asked = request->Ok_0;
            &&& allowed
            &&& asked.fields == spec.fields
            &&& asked.unique == spec.unique
            &&& asked.name == spec.name
            &&& asked.expire_after_seconds == spec.expire_after_seconds
            &&& carries(asked.partial_filter, spec.partial_filter_expression)
            &&& spec.enforcement is None ==> asked.enforcement == Enforcement::Local
            &&& spec.enforcement is Some ==> {
                ||| spec.enforcement->0@ == "local"@ && asked.enforcement == Enforcement::Local
                ||| spec.enforcement->0@ == "coordinated"@ && asked.enforcement
                    == Enforcement::Coordinated
            }
        },
        !allowed ==> request is Err && request->Err_0.status == 403,
        allowed && super::laws::is_readable(spec.partial_filter_expression) && (
        spec.enforcement is Some ==> spec.enforcement->0@ == "local"@
            || spec.enforcement->0@ == "coordinated"@) ==> request is Ok,
{
}

/// An index is listed as it is: each property under its own name, and a policy only
/// where it has one.
pub open spec fn lists_index(v: JsonView, index: IndexMeta, unkeyed: u64, undecidable: u64) -> bool {
    &&& has_field(v, "name"@, JsonView::String(index.name@))
    &&& has_field(v, "unique"@, JsonView::Bool(index.unique))
    &&& has_field(v, "multikey"@, JsonView::Bool(index.multikey))
    &&& has_field(v, "unkeyed"@, count_json(unkeyed))
    &&& has_field(v, "undecidable"@, count_json(undecidable))
    &&& index.enforcement == Enforcement::Local ==> has_field(
        v,
        "enforcement"@,
        JsonView::String("local"@),
    )
    &&& index.enforcement == Enforcement::Coordinated ==> has_field(
        v,
        "enforcement"@,
        JsonView::String("coordinated"@),
    )
    &&& exists|fields: Seq<JsonView>| #[trigger]
        has_field(v, "fields"@, JsonView::Array(fields)) && fields.len() == index.fields@.len()
            && forall|i: int|
            0 <= i < fields.len() ==> lists_field(#[trigger] fields[i], index.fields@[i])
    &&& index.expire_after_secs is Some ==> has_field(
        v,
        "expireAfterSeconds"@,
        crate::json::json_integer(index.expire_after_secs->0 as int),
    )
    &&& index.expire_after_secs is None ==> lacks_field(v, "expireAfterSeconds"@)
    &&& index.partial_filter is Some ==> has_field(
        v,
        "partialFilterExpression"@,
        document_json(index.partial_filter->0),
    )
    &&& index.partial_filter is None ==> lacks_field(v, "partialFilterExpression"@)
}

/// A field of an index is listed by its path and its direction.
pub open spec fn lists_field(v: JsonView, field: IndexFieldSpec) -> bool {
    &&& has_field(v, "path"@, JsonView::String(field.path@))
    &&& has_field(v, "descending"@, JsonView::Bool(field.descending))
}

proof fn lemma_lists_field(field: IndexFieldSpec)
    ensures
        lists_field(super::schema::field_view(field), field),
{
    reveal_strlit("path");
    reveal_strlit("descending");
    let f = super::schema::field_view(field)->Object_0;
    assert(f[0].0 == "path"@ && f[1].0 == "descending"@);
    assert("path"@.len() != "descending"@.len());
}

proof fn lemma_lists_index(v: JsonView, index: IndexMeta, unkeyed: u64, undecidable: u64)
    requires
        v == super::schema::index_view(index, unkeyed, undecidable),
    ensures
        lists_index(v, index, unkeyed, undecidable),
{
    reveal_strlit("name");
    reveal_strlit("fields");
    reveal_strlit("unique");
    reveal_strlit("enforcement");
    reveal_strlit("multikey");
    reveal_strlit("unkeyed");
    reveal_strlit("undecidable");
    reveal_strlit("expireAfterSeconds");
    reveal_strlit("partialFilterExpression");
    assert("name"@.len() == 4 && "fields"@.len() == 6 && "unique"@.len() == 6);
    assert("enforcement"@.len() == 11 && "multikey"@.len() == 8 && "unkeyed"@.len() == 7);
    assert("undecidable"@.len() == 11 && "expireAfterSeconds"@.len() == 18);
    assert("partialFilterExpression"@.len() == 23);
    assert("fields"@[0] == 'f' && "unique"@[0] == 'u');
    assert("enforcement"@[0] == 'e' && "undecidable"@[0] == 'u');
    let m = v->Object_0;
    assert(m[0].0 == "name"@ && m[1].0 == "fields"@ && m[2].0 == "unique"@ && m[3].0
        == "enforcement"@ && m[4].0 == "multikey"@ && m[5].0 == "unkeyed"@ && m[6].0
        == "undecidable"@);
    let fields = m[1].1->Array_0;
    assert(has_field(v, "fields"@, JsonView::Array(fields)));
    assert forall|i: int| 0 <= i < fields.len() implies lists_field(
        #[trigger] fields[i],
        index.fields@[i],
    ) by {
        lemma_lists_field(index.fields@[i]);
    }
    let a: int = if index.expire_after_secs is Some {
        8
    } else {
        7
    };
    if index.expire_after_secs is Some {
        assert(m[7].0 == "expireAfterSeconds"@);
    }
    if index.partial_filter is Some {
        assert(m[a].0 == "partialFilterExpression"@);
    }
    assert forall|i: int, j: int| 0 <= i < j < m.len() implies #[trigger] m[i].0
        != #[trigger] m[j].0 by {}
}

/// An index is shown, and listed, as it is.
pub proof fn an_index_is_listed_as_it_is(
    index: IndexMeta,
    unkeyed: u64,
    undecidable: u64,
    v: Json,
    indexes: Vec<(IndexMeta, u64, u64)>,
    body: Json,
)
    requires
        call_ensures(index_to_json, (&index, unkeyed, undecidable), v),
        call_ensures(list_indexes, (&indexes,), body),
    ensures
        lists_index(v@, index, unkeyed, undecidable),
        exists|listed: Seq<JsonView>| #[trigger]
            has_field(body@, "indexes"@, JsonView::Array(listed)) && listed.len()
                == indexes@.len() && forall|i: int|
                0 <= i < listed.len() ==> lists_index(
                    #[trigger] listed[i],
                    indexes@[i].0,
                    indexes@[i].1,
                    indexes@[i].2,
                ),
{
    lemma_lists_index(v@, index, unkeyed, undecidable);
    assert(body@->Object_0[0].0 == "indexes"@);
    let listed = body@->Object_0[0].1->Array_0;
    assert forall|i: int| 0 <= i < listed.len() implies lists_index(
        #[trigger] listed[i],
        indexes@[i].0,
        indexes@[i].1,
        indexes@[i].2,
    ) by {
        lemma_lists_index(listed[i], indexes@[i].0, indexes@[i].1, indexes@[i].2);
    }
    assert(has_field(body@, "indexes"@, JsonView::Array(listed)));
}

/// A confirmation may take what is left of a request but for a quarter of a second,
/// and nothing bounds it outside a request.
pub proof fn a_confirmation_leaves_time_to_answer(left: Option<u64>, cap: Option<u64>)
    requires
        call_ensures(confirm_cap, (left,), cap),
    ensures
        cap is Some <==> left is Some,
        cap is Some && left->0 >= 250 ==> cap->0 + 250 == left->0,
        cap is Some && left->0 < 250 ==> cap->0 == 0,
{
}

/// A confirmation names who holds a change, who refused it, and who has not
/// answered, with the reason.
pub proof fn a_confirmation_names_every_member(found: DdlConfirmation, v: Json)
    requires
        call_ensures(confirmation_to_json, (&found,), v),
    ensures
        exists|names: Seq<JsonView>| #[trigger]
            has_field(v@, "confirmed"@, JsonView::Array(names)) && lists_names(
                names,
                found.confirmed@,
            ),
        exists|names: Seq<JsonView>| #[trigger]
            has_field(v@, "refused"@, JsonView::Array(names)) && lists_names(
                names,
                found.refused@,
            ),
        exists|pending: Seq<JsonView>| #[trigger]
            has_field(v@, "pending"@, JsonView::Array(pending)) && pending.len()
                == found.pending@.len() && forall|i: int|
                0 <= i < pending.len() ==> has_field(
                    #[trigger] pending[i],
                    "node"@,
                    JsonView::String(found.pending@[i].0@),
                ) && has_field(pending[i], "reason"@, JsonView::String(found.pending@[i].1@)),
{
    reveal_strlit("confirmed");
    reveal_strlit("refused");
    reveal_strlit("pending");
    reveal_strlit("node");
    reveal_strlit("reason");
    assert("refused"@[0] == 'r' && "pending"@[0] == 'p');
    let m = v@->Object_0;
    assert(m[0].0 == "confirmed"@ && m[1].0 == "refused"@ && m[2].0 == "pending"@);
    assert(has_field(v@, "confirmed"@, JsonView::Array(m[0].1->Array_0)));
    assert(has_field(v@, "refused"@, JsonView::Array(m[1].1->Array_0)));
    let pending = m[2].1->Array_0;
    assert forall|i: int| 0 <= i < pending.len() implies has_field(
        #[trigger] pending[i],
        "node"@,
        JsonView::String(found.pending@[i].0@),
    ) && has_field(pending[i], "reason"@, JsonView::String(found.pending@[i].1@)) by {
        let p = pending[i]->Object_0;
        assert(p[0].0 == "node"@ && p[1].0 == "reason"@);
    }
    assert(has_field(v@, "pending"@, JsonView::Array(pending)));
}

/// Whether these are the names as texts, in order.
pub open spec fn lists_names(listed: Seq<JsonView>, names: Seq<String>) -> bool {
    listed.len() == names.len() && forall|i: int|
        0 <= i < names.len() ==> #[trigger] listed[i] == JsonView::String(names[i]@)
}

/// An answer carries the confirmation where there is one, and is as it was where
/// there is none.
pub proof fn an_answer_carries_its_confirmation(
    body: Vec<(String, Json)>,
    confirmation: Option<Json>,
    out: Json,
)
    requires
        call_ensures(with_confirmation, (body, confirmation), out),
    ensures
        out@ is Object,
        confirmation is None ==> out@->Object_0 == crate::json::json_members(body@),
        confirmation is Some ==> lookup(out@->Object_0, "confirmation"@) == Some(
            confirmation->0@,
        ),
        confirmation is Some ==> forall|i: int|
            0 <= i < body@.len() && (#[trigger] body@[i]).0@ != "confirmation"@
                ==> out@->Object_0[i] == (body@[i].0@, body@[i].1@),
{
    let members = crate::json::json_members(body@);
    crate::json::lemma_key_index(members, "confirmation"@);
    if confirmation is Some {
        let at = crate::json::key_index(members, "confirmation"@);
        crate::json::lemma_key_index_unique(out@->Object_0, "confirmation"@, at);
    }
}

/// The documents under a standing collision that are still there, in order.
pub open spec fn still_there(docs: Seq<Option<Document>>) -> Seq<JsonView> {
    docs.filter(|d: Option<Document>| d is Some).map_values(
        |d: Option<Document>| document_json(d->0),
    )
}

proof fn lemma_still_there(docs: Seq<Option<Document>>, n: nat)
    requires
        n <= docs.len(),
    ensures
        stored_documents(docs, n) == still_there(docs.take(n as int)),
    decreases n,
{
    reveal(Seq::filter);
    let pick = |d: Option<Document>| d is Some;
    let show = |d: Option<Document>| document_json(d->0);
    if n > 0 {
        lemma_still_there(docs, (n - 1) as nat);
        assert(docs.take(n as int).drop_last() =~= docs.take(n - 1));
        let before = docs.take(n - 1).filter(pick);
        if docs[n - 1] is Some {
            assert(docs.take(n as int).filter(pick) == before.push(docs[n - 1]));
            assert(before.push(docs[n - 1]).map_values(show) =~= before.map_values(show).push(
                document_json(docs[n - 1]->0),
            ));
        }
    } else {
        assert(still_there(docs.take(0)) =~= Seq::<JsonView>::empty());
    }
}

/// A collision is shown with its ids, the merged value, and the documents that are
/// still there.
pub open spec fn shows_violation(v: JsonView, of: Violation) -> bool {
    &&& has_field(
        v,
        "ids"@,
        JsonView::Array(of.ids@.map_values(|id: Bson| json_of(id@))),
    )
    &&& has_field(v, "merged"@, json_of(of.merged@))
    &&& has_field(v, "documents"@, JsonView::Array(still_there(of.documents@)))
}

proof fn lemma_shows_violation(of: Violation)
    ensures
        shows_violation(super::schema::violation_view(of), of),
{
    reveal_strlit("ids");
    reveal_strlit("merged");
    reveal_strlit("documents");
    let v = super::schema::violation_view(of);
    let m = v->Object_0;
    lemma_still_there(of.documents@, of.documents@.len());
    assert(of.documents@.take(of.documents@.len() as int) =~= of.documents@);
    assert(super::schema::value_list(of.ids@) =~= of.ids@.map_values(|id: Bson| json_of(id@)));
    assert(m[0].0 == "ids"@ && m[1].0 == "merged"@ && m[2].0 == "documents"@);
}

/// The collisions of an index, in order.
pub open spec fn on_index(live: Seq<Violation>, name: Seq<char>) -> Seq<Violation> {
    live.filter(|v: Violation| v.index@ == name)
}

proof fn lemma_groups(live: Seq<Violation>, name: Seq<char>, n: nat)
    requires
        n <= live.len(),
    ensures
        ({
            let shown = groups(live, name, n);
            let all = on_index(live.take(n as int), name);
            &&& shown.len() == (if all.len() < 10_000 {
                all.len()
            } else {
                10_000
            })
            &&& forall|i: int|
                0 <= i < shown.len() ==> #[trigger] shown[i] == super::schema::violation_view(
                    all[i],
                )
        }),
    decreases n,
{
    reveal(Seq::filter);
    if n > 0 {
        lemma_groups(live, name, (n - 1) as nat);
        assert(live.take(n as int).drop_last() =~= live.take(n - 1));
    } else {
        assert(live.take(0) =~= Seq::<Violation>::empty());
    }
}

/// The collisions of a named index are shown as they stand, ten thousand at the
/// most, and counted.
pub proof fn the_collisions_of_an_index_are_shown(live: Vec<Violation>, name: &str, body: Json)
    requires
        call_ensures(violations, (&live, Some(name)), body),
    ensures
        has_field(body@, "index"@, JsonView::String(name@)),
        exists|shown: Seq<JsonView>| #[trigger]
            has_field(body@, "groups"@, JsonView::Array(shown)) && has_field(
                body@,
                "count"@,
                count_json(shown.len() as u64),
            ) && shown.len() == (if on_index(live@, name@).len() < 10_000 {
                on_index(live@, name@).len()
            } else {
                10_000
            }) && forall|i: int|
                0 <= i < shown.len() ==> shows_violation(
                    #[trigger] shown[i],
                    on_index(live@, name@)[i],
                ),
{
    reveal_strlit("index");
    reveal_strlit("count");
    reveal_strlit("groups");
    assert("index"@[0] == 'i' && "count"@[0] == 'c');
    lemma_groups(live@, name@, live@.len());
    assert(live@.take(live@.len() as int) =~= live@);
    let m = body@->Object_0;
    assert(m[0].0 == "index"@ && m[1].0 == "count"@ && m[2].0 == "groups"@);
    let shown = m[2].1->Array_0;
    assert forall|i: int| 0 <= i < shown.len() implies shows_violation(
        #[trigger] shown[i],
        on_index(live@, name@)[i],
    ) by {
        lemma_shows_violation(on_index(live@, name@)[i]);
    }
    assert(has_field(body@, "groups"@, JsonView::Array(shown)));
}

/// Whether a row counts the collisions of one index.
pub open spec fn counts_index(row: JsonView, live: Seq<Violation>, name: Seq<char>) -> bool {
    &&& has_field(row, "name"@, JsonView::String(name))
    &&& has_field(row, "count"@, count_json(on_index(live, name).len() as u64))
}

proof fn lemma_standing(live: Seq<Violation>, name: Seq<char>, n: nat)
    requires
        n <= live.len(),
    ensures
        super::schema::standing(live, name, n) == on_index(live.take(n as int), name).len(),
    decreases n,
{
    reveal(Seq::filter);
    if n > 0 {
        lemma_standing(live, name, (n - 1) as nat);
        assert(live.take(n as int).drop_last() =~= live.take(n - 1));
    } else {
        assert(live.take(0) =~= Seq::<Violation>::empty());
    }
}

/// Without a name, the collisions are counted in all and by index: every index that
/// has one has a row, and every row counts its own.
pub proof fn collisions_are_counted_by_index(live: Vec<Violation>, body: Json)
    requires
        call_ensures(violations, (&live, None::<&str>), body),
    ensures
        has_field(body@, "count"@, count_json(live@.len() as u64)),
        exists|rows: Seq<JsonView>, names: Seq<Seq<char>>|
            #![trigger has_field(body@, "indexes"@, JsonView::Array(rows)), counts_by_index(rows, names, live@)]
            has_field(body@, "indexes"@, JsonView::Array(rows)) && counts_by_index(
                rows,
                names,
                live@,
            ),
{
    reveal_strlit("indexes");
    reveal_strlit("count");
    let tally = choose|tally: Seq<(Seq<char>, u64)>|
        super::schema::tallies(live@, live@.len(), tally) && body@ == JsonView::Object(
            seq![
                ("count"@, count_json(live@.len() as u64)),
                ("indexes"@, JsonView::Array(#[trigger] super::schema::tally_view(tally))),
            ],
        );
    let rows = super::schema::tally_view(tally);
    let m = body@->Object_0;
    assert(m[0].0 == "count"@ && m[1].0 == "indexes"@);
    assert(has_field(body@, "indexes"@, JsonView::Array(rows)));
    lemma_counts(live@, tally);
}

/// Whether the rows count the collisions of these indexes: each its own, no index
/// twice, and every index that has one among them.
pub open spec fn counts_by_index(
    rows: Seq<JsonView>,
    names: Seq<Seq<char>>,
    live: Seq<Violation>,
) -> bool {
    &&& rows.len() == names.len()
    &&& forall|i: int|
        0 <= i < rows.len() ==> counts_index(#[trigger] rows[i], live, names[i]) && on_index(
            live,
            names[i],
        ).len() > 0
    &&& forall|i: int, j: int|
        0 <= i < j < names.len() ==> #[trigger] names[i] != #[trigger] names[j]
    &&& forall|k: int| 0 <= k < live.len() ==> names.contains((#[trigger] live[k]).index@)
}

proof fn lemma_counts(live: Seq<Violation>, tally: Seq<(Seq<char>, u64)>)
    requires
        super::schema::tallies(live, live.len(), tally),
    ensures
        counts_by_index(
            super::schema::tally_view(tally),
            Seq::new(tally.len(), |i: int| tally[i].0),
            live,
        ),
{
    let rows = super::schema::tally_view(tally);
    let names = Seq::new(tally.len(), |i: int| tally[i].0);
    assert(live.take(live.len() as int) =~= live);
    assert forall|i: int| 0 <= i < rows.len() implies counts_index(
        #[trigger] rows[i],
        live,
        names[i],
    ) && on_index(live, names[i]).len() > 0 by {
        lemma_standing(live, tally[i].0, live.len());
        assert(tally[i].1 == super::schema::standing(live, tally[i].0, live.len()));
        lemma_row(rows[i], live, tally[i].0, tally[i].1);
    }
    assert forall|i: int, j: int| 0 <= i < j < names.len() implies #[trigger] names[i]
        != #[trigger] names[j] by {
        assert(super::schema::name_before(tally[i].0, tally[j].0));
        super::order::lemma_bytes_rank(
            vstd::utf8::encode_utf8(tally[i].0),
            vstd::utf8::encode_utf8(tally[j].0),
        );
    }
    assert forall|k: int| 0 <= k < live.len() implies names.contains(
        (#[trigger] live[k]).index@,
    ) by {
        let i = choose|i: int|
            0 <= i < tally.len() && (#[trigger] tally[i]).0 == live[k].index@;
        assert(names[i] == live[k].index@);
    }
}

proof fn lemma_row(row: JsonView, live: Seq<Violation>, name: Seq<char>, n: u64)
    requires
        row == JsonView::Object(seq![("name"@, JsonView::String(name)), ("count"@, count_json(n))]),
        n == on_index(live, name).len(),
    ensures
        counts_index(row, live, name),
{
    reveal_strlit("count");
    reveal_strlit("name");
    let r = row->Object_0;
    assert(r[0].0 == "name"@ && r[1].0 == "count"@);
}

/// A filter is the document that was given, and none where none was; and a stored
/// document is named by what stands under `_id`.
pub proof fn a_filter_is_the_document_given(
    value: Option<&Json>,
    filter: Result<Option<Document>, ApiError>,
    doc: Document,
    id: Result<&Bson, ApiError>,
)
    requires
        call_ensures(parse_filter, (value,), filter),
        call_ensures(document_id, (&doc,), id),
    ensures
        filter is Ok && value is None ==> filter->Ok_0 is None,
        filter is Ok && value is Some ==> filter->Ok_0 is Some && super::laws::reads_as(
            filter->Ok_0->0,
            value->0@,
        ),
        filter is Err ==> value is Some,
        id is Ok ==> lookup(bson_members(doc@), "_id"@) == Some(id->Ok_0@),
        id is Err ==> lookup(bson_members(doc@), "_id"@) is None && id->Err_0.status == 500,
{
}

/// The id of a stored document is what it has under `_id`, and one without is this
/// node's fault.
pub proof fn a_stored_document_is_known_by_its_id(
    doc: Document,
    id: Result<&Bson, ApiError>,
    i: int,
)
    requires
        call_ensures(document_id, (&doc,), id),
        0 <= i < bson_members(doc@).len(),
    ensures
        bson_members(doc@)[i].0 == "_id"@ && (forall|k: int|
            0 <= k < i ==> (#[trigger] bson_members(doc@)[k]).0 != "_id"@) ==> id is Ok
            && id->Ok_0@ == bson_members(doc@)[i].1,
        id is Err ==> bson_members(doc@)[i].0 != "_id"@ && id->Err_0.status == 500,
{
    let members = bson_members(doc@);
    if members[i].0 == "_id"@ && (forall|k: int|
        0 <= k < i ==> (#[trigger] members[k]).0 != "_id"@) {
        crate::json::lemma_key_index_unique(members, "_id"@, i);
    }
    crate::json::lemma_key_index(members, "_id"@);
}

} // verus!
