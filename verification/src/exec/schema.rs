//! Databases, collections and indexes: who may act on them, and what is
//! answered of them.

use vstd::prelude::*;
use vstd::string::*;
use vstd::utf8::encode_utf8;

use super::order::{
    bytes_rank, compare_bytes, lemma_bytes_rank, lemma_bytes_rank_transitive, Rank, ID_FIELD,
};
use super::read::MAX_LIMIT;
use super::write::document_of;
use crate::error::{
    bad_request, core_refusal, forbidden, internal, not_found, storage_refusal, ApiError,
    ApiErrorView, CoreError, CoreErrorKind, Retry, StorageError,
};
use crate::json::{
    bson_members, bson_to_json, document_to_json, get, json_integer, json_items, json_members,
    json_of, json_of_members, json_to_document, json_view, lookup, put, put_json, valid, Bson,
    BsonView, Document, Json, JsonNumber, JsonView,
};
use crate::text::{begins_with, debug_text, quoted, starts_with};

verus! {

/// How a collection that was not found is answered. On a node with peers another
/// member may have it, so a client that just created it is told to ask
/// elsewhere; on a node with none there is nowhere else.
pub open spec fn missing(
    cause: StorageError,
    has_peers: bool,
    db: Seq<char>,
    coll: Seq<char>,
) -> ApiErrorView {
    let unknown = cause matches StorageError::Core(e) && e.kind
        == CoreErrorKind::CollectionNotFound;
    if unknown && has_peers {
        ApiErrorView {
            retry_override: Some(Retry::Elsewhere),
            ..not_found(
                "collection \""@ + db + "\".\""@ + coll
                    + "\" not found on this member; if it was just created, another member has it and this one will within a sync round"@,
            )
        }
    } else {
        storage_refusal(cause)
    }
}

/// Resolve a collection, with a retry hint that is true for a cluster: `found` is
/// what looking it up gave.
pub fn collection<M>(found: Result<M, StorageError>, has_peers: bool, db: &str, coll: &str) -> (
    answer: Result<M, ApiError>)
    ensures
        match (answer, found) {
            (Ok(meta), Ok(stored)) => meta == stored,
            (Err(e), Err(cause)) => e@ == missing(cause, has_peers, db@, coll@),
            _ => false,
        },
{
    match found {
        Ok(meta) => Ok(meta),
        Err(cause) => {
            let unknown = match &cause {
                StorageError::Core(e) => matches!(e.kind, CoreErrorKind::CollectionNotFound),
                _ => false,
            };
            if unknown && has_peers {
                let mut text = "collection \"".to_owned();
                text.append(db);
                text.append("\".\"");
                text.append(coll);
                text.append(
                    "\" not found on this member; if it was just created, another member has it and this one will within a sync round",
                );
                Err(ApiError::not_found(text.as_str()).with_retry(Retry::Elsewhere))
            } else {
                Err(ApiError::from_storage(cause))
            }
        },
    }
}

/// Resolve a collection after checking that the caller may act on it.
///
/// The authorization comes first, so that a denied request cannot distinguish
/// "forbidden" from "does not exist".
pub fn authorize<M>(
    allowed: bool,
    found: Result<M, StorageError>,
    has_peers: bool,
    db: &str,
    coll: &str,
) -> (answer: Result<M, ApiError>)
    ensures
        !allowed ==> answer is Err && answer->Err_0@ == forbidden(),
        allowed ==> match (answer, found) {
            (Ok(meta), Ok(stored)) => meta == stored,
            (Err(e), Err(cause)) => e@ == missing(cause, has_peers, db@, coll@),
            _ => false,
        },
{
    if !allowed {
        return Err(ApiError::forbidden());
    }
    collection(found, has_peers, db, coll)
}

/// A name, and whether the caller may read what it names.
#[derive(Debug)]
pub struct Listed {
    pub name: String,
    pub readable: bool,
}

/// The names among the first `n` that the caller may read.
pub open spec fn readable_names(all: Seq<Listed>, n: nat) -> Seq<JsonView>
    decreases n,
{
    if n == 0 {
        Seq::empty()
    } else {
        let before = readable_names(all, (n - 1) as nat);
        if all[n - 1].readable {
            before.push(JsonView::String(all[n - 1].name@))
        } else {
            before
        }
    }
}

fn list_readable(field: &str, all: &Vec<Listed>) -> (body: Json)
    ensures
        body@ == JsonView::Object(
            seq![(field@, JsonView::Array(readable_names(all@, all@.len())))],
        ),
{
    broadcast use json_view;

    let mut names: Vec<Json> = Vec::new();
    let mut i: usize = 0;
    assert(json_items(names@) =~= Seq::<JsonView>::empty());
    while i < all.len()
        invariant
            i <= all.len(),
            json_items(names@) == readable_names(all@, i as nat),
        decreases all.len() - i,
    {
        if all[i].readable {
            let ghost before = names@;
            names.push(Json::String(all[i].name.clone()));
            assert(json_items(names@) =~= json_items(before).push(
                JsonView::String(all@[i as int].name@),
            ));
        }
        i = i + 1;
    }
    let body: Vec<(String, Json)> = vec![(field.to_owned(), Json::Array(names))];
    assert(json_members(body@) =~= seq![
        (field@, JsonView::Array(readable_names(all@, all@.len()))),
    ]);
    Json::Object(body)
}

/// The databases the caller may read. The others are left out, rather than
/// revealed to exist.
pub fn list_databases(all: &Vec<Listed>) -> (body: Json)
    ensures
        body@ == JsonView::Object(
            seq![("databases"@, JsonView::Array(readable_names(all@, all@.len())))],
        ),
{
    list_readable("databases", all)
}

/// The collections the caller may read. A database that does not exist is an
/// error, not an empty list: an empty one already means "nothing you can see".
pub fn list_collections(missing: Option<CoreError>, all: &Vec<Listed>) -> (answer: Result<
    Json,
    ApiError,
>)
    ensures
        match (answer, missing) {
            (Ok(body), None) => body@ == JsonView::Object(
                seq![("collections"@, JsonView::Array(readable_names(all@, all@.len())))],
            ),
            (Err(e), Some(why)) => e@ == core_refusal(why),
            _ => false,
        },
{
    match missing {
        Some(why) => Err(ApiError::from_core(why)),
        None => Ok(list_readable("collections", all)),
    }
}

/// The answer to the creation of a collection.
pub fn create_collection(name: &str, id: u64) -> (body: Json)
    ensures
        body@ == JsonView::Object(
            seq![
                ("created"@, JsonView::String(name@)),
                ("id"@, JsonView::Number(JsonNumber::PosInt(id))),
            ],
        ),
{
    broadcast use json_view;

    let body: Vec<(String, Json)> = vec![
        ("created".to_owned(), Json::String(name.to_owned())),
        ("id".to_owned(), Json::Number(JsonNumber::PosInt(id))),
    ];
    assert(json_members(body@) =~= seq![
        ("created"@, JsonView::String(name@)),
        ("id"@, JsonView::Number(JsonNumber::PosInt(id))),
    ]);
    Json::Object(body)
}

/// The id a drop of a collection strands a vector index under: its shadow's, and
/// its own where it is a shadow itself.
pub fn shadow_of(is_shadow: bool, own: u64, shadow: u64) -> (id: u64)
    ensures
        id == (if is_shadow {
            own
        } else {
            shadow
        }),
{
    if is_shadow {
        own
    } else {
        shadow
    }
}

/// The vector index that a drop of a collection strands, or why this caller may
/// not drop it. It is in hand before the drop, because the shadow goes with its
/// parent.
pub fn drop_collection(allowed: bool, is_shadow: bool, own: u64, shadow: u64) -> (answer: Result<
    u64,
    ApiError,
>)
    ensures
        !allowed ==> answer is Err && answer->Err_0@ == forbidden(),
        allowed ==> answer == Ok::<u64, ApiError>(
            if is_shadow {
                own
            } else {
                shadow
            },
        ),
{
    if !allowed {
        return Err(ApiError::forbidden());
    }
    Ok(shadow_of(is_shadow, own, shadow))
}

/// A collection of a database: its id, and whether it holds another's vectors.
#[derive(Clone, Copy, Debug, PartialEq, Eq, Structural)]
pub struct Held {
    pub id: u64,
    pub is_shadow: bool,
}

/// The ids of the shadows among the first `n` collections.
pub open spec fn shadow_ids(all: Seq<Held>, n: nat) -> Seq<u64>
    decreases n,
{
    if n == 0 {
        Seq::empty()
    } else {
        let before = shadow_ids(all, (n - 1) as nat);
        if all[n - 1].is_shadow {
            before.push(all[n - 1].id)
        } else {
            before
        }
    }
}

/// The vector indexes that a drop of a whole database strands, or why this
/// caller may not drop it. System databases are refused, whoever asks: the node
/// keeps its own bookkeeping there.
///
/// Every shadow is listed, beside its parent or without one, because a graph
/// left behind for any of them is memory and disk for data that no longer
/// exists.
pub fn drop_database(db: &str, allowed: bool, collections: &Vec<Held>) -> (answer: Result<
    Vec<u64>,
    ApiError,
>)
    ensures
        begins_with(db@, "__"@) ==> answer is Err && answer->Err_0@ == bad_request(
            db@ + " is a system database and cannot be dropped"@,
        ),
        !begins_with(db@, "__"@) && !allowed ==> answer is Err && answer->Err_0@ == forbidden(),
        !begins_with(db@, "__"@) && allowed ==> answer is Ok && answer->Ok_0@ == shadow_ids(
            collections@,
            collections@.len(),
        ),
{
    if starts_with(db, "__") {
        let mut text = db.to_owned();
        text.append(" is a system database and cannot be dropped");
        return Err(ApiError::bad_request(text.as_str()));
    }
    if !allowed {
        return Err(ApiError::forbidden());
    }
    let mut stranded: Vec<u64> = Vec::new();
    let mut i: usize = 0;
    while i < collections.len()
        invariant
            i <= collections.len(),
            stranded@ == shadow_ids(collections@, i as nat),
        decreases collections.len() - i,
    {
        if collections[i].is_shadow {
            stranded.push(collections[i].id);
        }
        i = i + 1;
    }
    Ok(stranded)
}

/// The answer to a drop: what the engine says it dropped.
pub fn dropped(what: Json) -> (body: Json)
    ensures
        body@ == JsonView::Object(seq![("dropped"@, what@)]),
{
    broadcast use json_view;

    let body: Vec<(String, Json)> = vec![("dropped".to_owned(), what)];
    assert(json_members(body@) =~= seq![("dropped"@, what@)]);
    Json::Object(body)
}

/// How unique indexes are enforced across members.
#[derive(Clone, Copy, Debug, PartialEq, Eq, Structural)]
pub enum Enforcement {
    Local,
    Coordinated,
}

/// One field of an index definition.
#[derive(Debug, PartialEq, Eq)]
pub struct IndexFieldSpec {
    pub path: String,
    pub descending: bool,
}

/// The enforcement a request asks for: `local` where it says nothing.
pub open spec fn enforcement_named(name: Option<Seq<char>>) -> Result<Enforcement, ApiErrorView> {
    match name {
        None => Ok(Enforcement::Local),
        Some(name) => if name == "local"@ {
            Ok(Enforcement::Local)
        } else if name == "coordinated"@ {
            Ok(Enforcement::Coordinated)
        } else {
            Err(
                bad_request(
                    "unknown enforcement "@ + quoted(name)
                        + ": expected \"local\" or \"coordinated\""@,
                ),
            )
        },
    }
}

fn parse_enforcement(name: Option<&String>) -> (enforcement: Result<Enforcement, ApiError>)
    ensures
        match (
            enforcement,
            enforcement_named(
                match name {
                    Some(n) => Some(n@),
                    None => None::<Seq<char>>,
                },
            ),
        ) {
            (Ok(a), Ok(b)) => a == b,
            (Err(e), Err(expected)) => e@ == expected,
            _ => false,
        },
{
    match name {
        None => Ok(Enforcement::Local),
        Some(name) => {
            if *name.as_str() == *"local" {
                Ok(Enforcement::Local)
            } else if *name.as_str() == *"coordinated" {
                Ok(Enforcement::Coordinated)
            } else {
                let mut text = "unknown enforcement ".to_owned();
                text.append(debug_text(name.as_str()).as_str());
                text.append(": expected \"local\" or \"coordinated\"");
                Err(ApiError::bad_request(text.as_str()))
            }
        },
    }
}

/// An index to create, as a request says it.
#[derive(Debug)]
pub struct IndexSpec {
    pub fields: Vec<IndexFieldSpec>,
    pub unique: bool,
    pub name: Option<String>,
    /// `"local"` (default) or `"coordinated"`.
    pub enforcement: Option<String>,
    /// Present makes this an index whose documents expire.
    pub expire_after_seconds: Option<i64>,
    /// Present makes this a partial index, holding only matching documents.
    pub partial_filter_expression: Option<Json>,
}

/// What is asked of the engine for an index.
#[derive(Debug)]
pub struct IndexRequest {
    pub fields: Vec<IndexFieldSpec>,
    pub unique: bool,
    pub enforcement: Enforcement,
    pub name: Option<String>,
    pub expire_after_seconds: Option<i64>,
    pub partial_filter: Option<Document>,
}

/// The text of an optional string.
pub open spec fn optional_text(s: Option<String>) -> Option<Seq<char>> {
    match s {
        Some(s) => Some(s@),
        None => None,
    }
}

/// Whether a request asks the engine for the index of `spec`.
pub open spec fn asks_for(request: IndexRequest, spec: IndexSpec) -> bool {
    &&& request.fields == spec.fields
    &&& request.unique == spec.unique
    &&& request.name == spec.name
    &&& request.expire_after_seconds == spec.expire_after_seconds
    &&& enforcement_named(optional_text(spec.enforcement)) == Ok::<Enforcement, ApiErrorView>(
        request.enforcement,
    )
    &&& match spec.partial_filter_expression {
        None => request.partial_filter is None,
        Some(value) => {
            &&& request.partial_filter is Some
            &&& document_of(value@) == Ok::<Seq<(Seq<char>, BsonView)>, ApiErrorView>(
                bson_members(request.partial_filter->0@),
            )
        },
    }
}

/// What is asked of the engine for an index, or why the request is refused: an
/// unknown enforcement first, and then a partial filter that is no document.
pub fn create_index(allowed: bool, spec: IndexSpec) -> (request: Result<IndexRequest, ApiError>)
    requires
        spec.partial_filter_expression matches Some(v) ==> valid(v@),
    ensures
        !allowed ==> request is Err && request->Err_0@ == forbidden(),
        allowed ==> match enforcement_named(optional_text(spec.enforcement)) {
            Err(e) => request is Err && request->Err_0@ == e,
            Ok(_) => match spec.partial_filter_expression {
                None => request is Ok && asks_for(request->Ok_0, spec),
                Some(value) => match document_of(value@) {
                    Ok(_) => request is Ok && asks_for(request->Ok_0, spec),
                    Err(e) => request is Err && request->Err_0@ == e,
                },
            },
        },
{
    if !allowed {
        return Err(ApiError::forbidden());
    }
    let enforcement = match parse_enforcement(spec.enforcement.as_ref()) {
        Ok(enforcement) => enforcement,
        Err(e) => {
            return Err(e);
        },
    };
    let partial_filter = match &spec.partial_filter_expression {
        Some(value) => match json_to_document(value) {
            Ok(doc) => Some(doc),
            Err(e) => {
                return Err(e);
            },
        },
        None => None,
    };
    Ok(
        IndexRequest {
            fields: spec.fields,
            unique: spec.unique,
            enforcement,
            name: spec.name,
            expire_after_seconds: spec.expire_after_seconds,
            partial_filter,
        },
    )
}

/// An index definition.
#[derive(Debug)]
pub struct IndexMeta {
    pub name: String,
    pub fields: Vec<IndexFieldSpec>,
    pub unique: bool,
    pub enforcement: Enforcement,
    pub multikey: bool,
    pub expire_after_secs: Option<i64>,
    pub partial_filter: Option<Document>,
}

/// A field of an index, in a response.
pub open spec fn field_view(f: IndexFieldSpec) -> JsonView {
    JsonView::Object(
        seq![
            ("path"@, JsonView::String(f.path@)),
            ("descending"@, JsonView::Bool(f.descending)),
        ],
    )
}

/// An index's fields, in a response.
pub open spec fn index_fields(fields: Seq<IndexFieldSpec>) -> Seq<JsonView> {
    Seq::new(fields.len(), |i: int| field_view(fields[i]))
}

/// The word for an enforcement.
pub open spec fn enforcement_word(e: Enforcement) -> Seq<char> {
    match e {
        Enforcement::Local => "local"@,
        Enforcement::Coordinated => "coordinated"@,
    }
}

/// What every index says.
pub open spec fn index_always(
    index: IndexMeta,
    unkeyed: u64,
    undecidable: u64,
) -> Seq<(Seq<char>, JsonView)> {
    seq![
        ("name"@, JsonView::String(index.name@)),
        ("fields"@, JsonView::Array(index_fields(index.fields@))),
        ("unique"@, JsonView::Bool(index.unique)),
        ("enforcement"@, JsonView::String(enforcement_word(index.enforcement))),
        ("multikey"@, JsonView::Bool(index.multikey)),
        ("unkeyed"@, JsonView::Number(JsonNumber::PosInt(unkeyed))),
        ("undecidable"@, JsonView::Number(JsonNumber::PosInt(undecidable))),
    ]
}

/// An index in a response. The expiry and the partial filter are there only
/// where it has them.
pub open spec fn index_view(index: IndexMeta, unkeyed: u64, undecidable: u64) -> JsonView {
    let out = index_always(index, unkeyed, undecidable);
    let out = match index.expire_after_secs {
        Some(secs) => out.push(("expireAfterSeconds"@, json_integer(secs as int))),
        None => out,
    };
    JsonView::Object(
        match index.partial_filter {
            Some(filter) => out.push(
                (
                    "partialFilterExpression"@,
                    JsonView::Object(json_of_members(bson_members(filter@))),
                ),
            ),
            None => out,
        },
    )
}

/// An index in a response, with how many documents it holds that it could not
/// key, and how many because its partial filter could not decide them.
pub fn index_to_json(index: &IndexMeta, unkeyed: u64, undecidable: u64) -> (v: Json)
    ensures
        v@ == index_view(*index, unkeyed, undecidable),
{
    broadcast use json_view;

    let mut fields: Vec<Json> = Vec::new();
    let mut i: usize = 0;
    while i < index.fields.len()
        invariant
            i <= index.fields.len(),
            fields@.len() == i,
            forall|k: int| 0 <= k < i ==> (#[trigger] fields@[k])@ == field_view(index.fields@[k]),
        decreases index.fields.len() - i,
    {
        let members: Vec<(String, Json)> = vec![
            ("path".to_owned(), Json::String(index.fields[i].path.clone())),
            ("descending".to_owned(), Json::Bool(index.fields[i].descending)),
        ];
        assert(json_members(members@) =~= field_view(index.fields@[i as int])->Object_0);
        let field = Json::Object(members);
        proof {
            json_view(field);
        }
        fields.push(field);
        i = i + 1;
    }
    assert(json_items(fields@) =~= index_fields(index.fields@));
    let enforcement = match index.enforcement {
        Enforcement::Local => "local",
        Enforcement::Coordinated => "coordinated",
    };
    let mut out: Vec<(String, Json)> = vec![
        ("name".to_owned(), Json::String(index.name.clone())),
        ("fields".to_owned(), Json::Array(fields)),
        ("unique".to_owned(), Json::Bool(index.unique)),
        ("enforcement".to_owned(), Json::String(enforcement.to_owned())),
        ("multikey".to_owned(), Json::Bool(index.multikey)),
        ("unkeyed".to_owned(), Json::Number(JsonNumber::PosInt(unkeyed))),
        ("undecidable".to_owned(), Json::Number(JsonNumber::PosInt(undecidable))),
    ];
    let ghost mut view = index_always(*index, unkeyed, undecidable);
    assert(json_members(out@) =~= view);
    match index.expire_after_secs {
        Some(secs) => {
            out.push(("expireAfterSeconds".to_owned(), crate::json::integer(secs)));
            proof {
                view = view.push(("expireAfterSeconds"@, json_integer(secs as int)));
            }
            assert(json_members(out@) =~= view);
        },
        None => {},
    }
    match &index.partial_filter {
        Some(filter) => {
            out.push(("partialFilterExpression".to_owned(), document_to_json(filter)));
            proof {
                view = view.push(
                    (
                        "partialFilterExpression"@,
                        JsonView::Object(json_of_members(bson_members(filter@))),
                    ),
                );
            }
            assert(json_members(out@) =~= view);
        },
        None => {},
    }
    Json::Object(out)
}

/// Indexes in a response, each with its two counts.
pub open spec fn index_list(indexes: Seq<(IndexMeta, u64, u64)>) -> Seq<JsonView> {
    Seq::new(
        indexes.len(),
        |i: int| index_view(indexes[i].0, indexes[i].1, indexes[i].2),
    )
}

/// The indexes of a collection.
pub fn list_indexes(indexes: &Vec<(IndexMeta, u64, u64)>) -> (body: Json)
    ensures
        body@ == JsonView::Object(seq![("indexes"@, JsonView::Array(index_list(indexes@)))]),
{
    broadcast use json_view;

    let mut list: Vec<Json> = Vec::new();
    let mut i: usize = 0;
    while i < indexes.len()
        invariant
            i <= indexes.len(),
            list@.len() == i,
            forall|k: int|
                0 <= k < i ==> (#[trigger] list@[k])@ == index_view(
                    indexes@[k].0,
                    indexes@[k].1,
                    indexes@[k].2,
                ),
        decreases indexes.len() - i,
    {
        list.push(index_to_json(&indexes[i].0, indexes[i].1, indexes[i].2));
        i = i + 1;
    }
    assert(json_items(list@) =~= index_list(indexes@));
    let body: Vec<(String, Json)> = vec![("indexes".to_owned(), Json::Array(list))];
    assert(json_members(body@) =~= seq![("indexes"@, JsonView::Array(index_list(indexes@)))]);
    Json::Object(body)
}

/// What a schema change's confirmation leaves of the request's deadline for
/// writing the answer, in milliseconds.
pub const ANSWER_MARGIN_MS: u64 = 250;

/// How long a confirmation may take: what the request has left, less the margin
/// for writing the answer; no bound outside a request with a deadline.
pub fn confirm_cap(left_ms: Option<u64>) -> (cap: Option<u64>)
    ensures
        cap is Some <==> left_ms is Some,
        cap matches Some(c) ==> c == (if left_ms->0 > ANSWER_MARGIN_MS {
            left_ms->0 - ANSWER_MARGIN_MS
        } else {
            0
        }),
{
    match left_ms {
        Some(left) => Some(
            if left > ANSWER_MARGIN_MS {
                left - ANSWER_MARGIN_MS
            } else {
                0
            },
        ),
        None => None,
    }
}

/// Who holds a schema change now, who refused it, and who has not answered and
/// why.
#[derive(Debug)]
pub struct DdlConfirmation {
    pub confirmed: Vec<String>,
    pub refused: Vec<String>,
    pub pending: Vec<(String, String)>,
}

/// Names in a response.
pub open spec fn name_list(names: Seq<String>) -> Seq<JsonView> {
    Seq::new(names.len(), |i: int| JsonView::String(names[i]@))
}

/// A member that has not answered, in a response.
pub open spec fn pending_view(p: (String, String)) -> JsonView {
    JsonView::Object(
        seq![("node"@, JsonView::String(p.0@)), ("reason"@, JsonView::String(p.1@))],
    )
}

/// The members that have not answered, in a response.
pub open spec fn pending_list(pending: Seq<(String, String)>) -> Seq<JsonView> {
    Seq::new(pending.len(), |i: int| pending_view(pending[i]))
}

/// A list of names as JSON.
pub fn json_names(names: &Vec<String>) -> (v: Json)
    ensures
        v@ == JsonView::Array(name_list(names@)),
{
    broadcast use json_view;

    let mut list: Vec<Json> = Vec::new();
    let mut i: usize = 0;
    while i < names.len()
        invariant
            i <= names.len(),
            list@.len() == i,
            forall|k: int| 0 <= k < i ==> (#[trigger] list@[k])@ == JsonView::String(names@[k]@),
        decreases names.len() - i,
    {
        list.push(Json::String(names[i].clone()));
        i = i + 1;
    }
    assert(json_items(list@) =~= name_list(names@));
    Json::Array(list)
}

/// A confirmation as a response carries it.
pub fn confirmation_to_json(found: &DdlConfirmation) -> (v: Json)
    ensures
        v@ == JsonView::Object(
            seq![
                ("confirmed"@, JsonView::Array(name_list(found.confirmed@))),
                ("refused"@, JsonView::Array(name_list(found.refused@))),
                ("pending"@, JsonView::Array(pending_list(found.pending@))),
            ],
        ),
{
    broadcast use json_view;

    let mut pending: Vec<Json> = Vec::new();
    let mut i: usize = 0;
    while i < found.pending.len()
        invariant
            i <= found.pending.len(),
            pending@.len() == i,
            forall|k: int|
                0 <= k < i ==> (#[trigger] pending@[k])@ == pending_view(found.pending@[k]),
        decreases found.pending.len() - i,
    {
        let members: Vec<(String, Json)> = vec![
            ("node".to_owned(), Json::String(found.pending[i].0.clone())),
            ("reason".to_owned(), Json::String(found.pending[i].1.clone())),
        ];
        assert(json_members(members@) =~= pending_view(found.pending@[i as int])->Object_0);
        let one = Json::Object(members);
        proof {
            json_view(one);
        }
        pending.push(one);
        i = i + 1;
    }
    assert(json_items(pending@) =~= pending_list(found.pending@));
    let body: Vec<(String, Json)> = vec![
        ("confirmed".to_owned(), json_names(&found.confirmed)),
        ("refused".to_owned(), json_names(&found.refused)),
        ("pending".to_owned(), Json::Array(pending)),
    ];
    assert(json_members(body@) =~= seq![
        ("confirmed"@, JsonView::Array(name_list(found.confirmed@))),
        ("refused"@, JsonView::Array(name_list(found.refused@))),
        ("pending"@, JsonView::Array(pending_list(found.pending@))),
    ]);
    Json::Object(body)
}

/// The answer to a drop of an index: whether this member held it.
pub fn drop_index(removed: bool) -> (body: Json)
    ensures
        body@ == JsonView::Object(seq![("dropped"@, JsonView::Bool(removed))]),
{
    dropped(Json::Bool(removed))
}

/// A response with what its confirmation found, where there was one. The peers
/// are not mentioned otherwise.
pub fn with_confirmation(body: Vec<(String, Json)>, confirmation: Option<Json>) -> (out: Json)
    ensures
        out@ == JsonView::Object(
            match confirmation {
                Some(found) => put(json_members(body@), "confirmation"@, found@),
                None => json_members(body@),
            },
        ),
{
    broadcast use json_view;

    let mut body = body;
    match confirmation {
        Some(found) => {
            put_json(&mut body, "confirmation".to_owned(), found);
        },
        None => {},
    }
    Json::Object(body)
}

/// A collision standing on a unique index, with what is stored under each of its
/// ids.
#[derive(Debug)]
pub struct Violation {
    pub index: String,
    pub ids: Vec<Bson>,
    pub merged: Bson,
    pub documents: Vec<Option<Document>>,
}

/// How many of the first `n` collisions stand on an index.
pub open spec fn standing(live: Seq<Violation>, name: Seq<char>, n: nat) -> nat
    decreases n,
{
    if n == 0 {
        0
    } else {
        standing(live, name, (n - 1) as nat) + (if live[n - 1].index@ == name {
            1nat
        } else {
            0
        })
    }
}

/// Whether `a` comes before `b`, by their bytes.
pub open spec fn name_before(a: Seq<char>, b: Seq<char>) -> bool {
    bytes_rank(encode_utf8(a), encode_utf8(b)) == Rank::First
}

/// Whether `rows` count the first `n` collisions by index: in the order of the
/// names, no name twice, each with its own count, and none left out.
pub open spec fn tallies(live: Seq<Violation>, n: nat, rows: Seq<(Seq<char>, u64)>) -> bool {
    &&& forall|i: int, j: int|
        0 <= i < j < rows.len() ==> name_before(#[trigger] rows[i].0, #[trigger] rows[j].0)
    &&& forall|i: int|
        0 <= i < rows.len() ==> (#[trigger] rows[i]).1 == standing(live, rows[i].0, n)
            && rows[i].1 > 0
    &&& forall|k: int|
        0 <= k < n ==> exists|i: int|
            0 <= i < rows.len() && (#[trigger] rows[i]).0 == (#[trigger] live[k]).index@
}

/// A tally in a response.
pub open spec fn tally_view(rows: Seq<(Seq<char>, u64)>) -> Seq<JsonView> {
    Seq::new(
        rows.len(),
        |i: int|
            JsonView::Object(
                seq![
                    ("name"@, JsonView::String(rows[i].0)),
                    ("count"@, JsonView::Number(JsonNumber::PosInt(rows[i].1))),
                ],
            ),
    )
}

/// The names and counts of a tally.
pub open spec fn row_views(rows: Seq<(String, u64)>) -> Seq<(Seq<char>, u64)> {
    Seq::new(rows.len(), |i: int| (rows[i].0@, rows[i].1))
}

proof fn lemma_standing_rises(live: Seq<Violation>, name: Seq<char>, n: nat)
    requires
        n <= live.len(),
    ensures
        standing(live, name, n) <= n,
        standing(live, name, n) == 0 <==> forall|k: int|
            0 <= k < n ==> (#[trigger] live[k]).index@ != name,
    decreases n,
{
    if n > 0 {
        lemma_standing_rises(live, name, (n - 1) as nat);
        assert(live[n - 1].index@ != name || standing(live, name, n) > 0);
    }
}

fn comes_before(a: &str, b: &str) -> (before: bool)
    ensures
        before == name_before(a@, b@),
{
    matches!(compare_bytes(a.as_bytes(), b.as_bytes()), Rank::First)
}

/// Count the collisions by index.
fn tally(live: &Vec<Violation>) -> (rows: Vec<(String, u64)>)
    ensures
        tallies(live@, live@.len(), row_views(rows@)),
{
    let mut rows: Vec<(String, u64)> = Vec::new();
    let mut n: usize = 0;
    while n < live.len()
        invariant
            n <= live.len(),
            tallies(live@, n as nat, row_views(rows@)),
        decreases live.len() - n,
    {
        let name = &live[n].index;
        let ghost before = row_views(rows@);
        let mut at: usize = 0;
        while at < rows.len() && comes_before(rows[at].0.as_str(), name.as_str())
            invariant
                at <= rows.len(),
                before == row_views(rows@),
                forall|i: int| 0 <= i < at ==> name_before(#[trigger] before[i].0, name@),
            decreases rows.len() - at,
        {
            assert(before[at as int].0 == rows@[at as int].0@);
            at = at + 1;
        }
        proof {
            assert forall|i: int| 0 <= i < at implies #[trigger] before[i].0 != name@ by {
                lemma_bytes_rank(encode_utf8(before[i].0), encode_utf8(name@));
            }
            lemma_standing_rises(live@, name@, n as nat);
        }
        if at < rows.len() && *rows[at].0.as_str() == *name.as_str() {
            let count: u64 = rows[at].1;
            assert(before[at as int] == (name@, count));
            rows[at].1 = count + 1;
            proof {
                let after = row_views(rows@);
                assert(after =~= before.update(at as int, (name@, (count + 1) as u64)));
                assert forall|i: int| 0 <= i < after.len() implies (#[trigger] after[i]).1
                    == standing(live@, after[i].0, n as nat + 1) && after[i].1 > 0 by {
                    if i != at {
                        assert(before[i] == after[i]);
                        lemma_rows_differ(before, i, at as int);
                    }
                }
                assert forall|k: int| 0 <= k < n + 1 implies exists|i: int|
                    0 <= i < after.len() && (#[trigger] after[i]).0 == (
                    #[trigger] live@[k]).index@ by {
                    if k == n {
                        assert(after[at as int].0 == live@[k].index@);
                    } else {
                        let i = choose|i: int|
                            0 <= i < before.len() && (#[trigger] before[i]).0 == live@[k].index@;
                        assert(after[i].0 == before[i].0);
                    }
                }
                assert forall|i: int, j: int| 0 <= i < j < after.len() implies name_before(
                    #[trigger] after[i].0,
                    #[trigger] after[j].0,
                ) by {
                    assert(after[i].0 == before[i].0 && after[j].0 == before[j].0);
                }
            }
        } else {
            let ghost text = name@;
            rows.insert(at, (name.clone(), 1));
            proof {
                let after = row_views(rows@);
                assert(after =~= before.insert(at as int, (text, 1u64)));
                if at < before.len() {
                    lemma_bytes_rank(encode_utf8(before[at as int].0), encode_utf8(text));
                    vstd::utf8::encode_utf8_decode_utf8(before[at as int].0);
                    vstd::utf8::encode_utf8_decode_utf8(text);
                    assert(name_before(text, before[at as int].0));
                }
                assert forall|i: int| at <= i < before.len() implies name_before(
                    text,
                    #[trigger] before[i].0,
                ) by {
                    if i > at {
                        lemma_bytes_rank_transitive(
                            encode_utf8(text),
                            encode_utf8(before[at as int].0),
                            encode_utf8(before[i].0),
                        );
                    }
                }
                assert forall|i: int| 0 <= i < before.len() implies #[trigger] before[i].0
                    != text by {
                    lemma_bytes_rank(encode_utf8(before[i].0), encode_utf8(text));
                }
                assert forall|k: int| 0 <= k < n implies (#[trigger] live@[k]).index@ != text by {
                    let i = choose|i: int|
                        0 <= i < before.len() && (#[trigger] before[i]).0 == live@[k].index@;
                    assert(before[i].0 != text);
                }
                assert forall|i: int, j: int| 0 <= i < j < after.len() implies name_before(
                    #[trigger] after[i].0,
                    #[trigger] after[j].0,
                ) by {
                    let a = if i < at {
                        i
                    } else {
                        i - 1
                    };
                    let b = if j < at {
                        j
                    } else {
                        j - 1
                    };
                    if i != at {
                        assert(after[i] == before[a]);
                    }
                    if j != at {
                        assert(after[j] == before[b]);
                    }
                }
                assert forall|i: int| 0 <= i < after.len() implies (#[trigger] after[i]).1
                    == standing(live@, after[i].0, n as nat + 1) && after[i].1 > 0 by {
                    if i < at {
                        assert(after[i] == before[i]);
                    } else if i > at {
                        assert(after[i] == before[i - 1]);
                    }
                }
                assert forall|k: int| 0 <= k < n + 1 implies exists|i: int|
                    0 <= i < after.len() && (#[trigger] after[i]).0 == (
                    #[trigger] live@[k]).index@ by {
                    if k == n {
                        assert(after[at as int].0 == live@[k].index@);
                    } else {
                        let i = choose|i: int|
                            0 <= i < before.len() && (#[trigger] before[i]).0 == live@[k].index@;
                        assert(after[if i < at {
                            i
                        } else {
                            i + 1
                        }].0 == before[i].0);
                    }
                }
            }
        }
        n = n + 1;
    }
    rows
}

proof fn lemma_rows_differ(rows: Seq<(Seq<char>, u64)>, i: int, j: int)
    requires
        0 <= i < rows.len(),
        0 <= j < rows.len(),
        i != j,
        forall|i: int, j: int|
            0 <= i < j < rows.len() ==> name_before(#[trigger] rows[i].0, #[trigger] rows[j].0),
    ensures
        rows[i].0 != rows[j].0,
{
    let a = if i < j {
        i
    } else {
        j
    };
    let b = if i < j {
        j
    } else {
        i
    };
    assert(name_before(rows[a].0, rows[b].0));
    lemma_bytes_rank(encode_utf8(rows[a].0), encode_utf8(rows[b].0));
}

/// The documents that are still stored, among the first `n`.
pub open spec fn stored_documents(docs: Seq<Option<Document>>, n: nat) -> Seq<JsonView>
    decreases n,
{
    if n == 0 {
        Seq::empty()
    } else {
        let before = stored_documents(docs, (n - 1) as nat);
        match docs[n - 1] {
            Some(doc) => before.push(JsonView::Object(json_of_members(bson_members(doc@)))),
            None => before,
        }
    }
}

/// Values in a response.
pub open spec fn value_list(values: Seq<Bson>) -> Seq<JsonView> {
    Seq::new(values.len(), |i: int| json_of(values[i]@))
}

/// A collision in a response.
pub open spec fn violation_view(v: Violation) -> JsonView {
    JsonView::Object(
        seq![
            ("ids"@, JsonView::Array(value_list(v.ids@))),
            ("merged"@, json_of(v.merged@)),
            ("documents"@, JsonView::Array(stored_documents(v.documents@, v.documents@.len()))),
        ],
    )
}

/// The first [`MAX_LIMIT`] collisions that stand on an index, among the first
/// `n` of all.
pub open spec fn groups(live: Seq<Violation>, name: Seq<char>, n: nat) -> Seq<JsonView>
    decreases n,
{
    if n == 0 {
        Seq::empty()
    } else {
        let before = groups(live, name, (n - 1) as nat);
        if live[n - 1].index@ == name && before.len() < MAX_LIMIT {
            before.push(violation_view(live[n - 1]))
        } else {
            before
        }
    }
}

fn violation_to_json(v: &Violation) -> (made: Json)
    ensures
        made@ == violation_view(*v),
{
    broadcast use json_view;

    let mut documents: Vec<Json> = Vec::new();
    let mut i: usize = 0;
    assert(json_items(documents@) =~= Seq::<JsonView>::empty());
    while i < v.documents.len()
        invariant
            i <= v.documents.len(),
            json_items(documents@) == stored_documents(v.documents@, i as nat),
        decreases v.documents.len() - i,
    {
        match &v.documents[i] {
            Some(doc) => {
                let ghost before = documents@;
                let made = document_to_json(doc);
                documents.push(made);
                assert(json_items(documents@) =~= json_items(before).push(made@));
            },
            None => {},
        }
        i = i + 1;
    }
    let mut ids: Vec<Json> = Vec::new();
    let mut i: usize = 0;
    while i < v.ids.len()
        invariant
            i <= v.ids.len(),
            ids@.len() == i,
            forall|k: int| 0 <= k < i ==> (#[trigger] ids@[k])@ == json_of(v.ids@[k]@),
        decreases v.ids.len() - i,
    {
        ids.push(bson_to_json(&v.ids[i]));
        i = i + 1;
    }
    assert(json_items(ids@) =~= value_list(v.ids@));
    let members: Vec<(String, Json)> = vec![
        ("ids".to_owned(), Json::Array(ids)),
        ("merged".to_owned(), bson_to_json(&v.merged)),
        ("documents".to_owned(), Json::Array(documents)),
    ];
    assert(json_members(members@) =~= violation_view(*v)->Object_0);
    Json::Object(members)
}

/// The unique violations standing on a collection: the ones a client has to
/// resolve. Without `index`, a count per index; with it, the colliding groups on
/// that index, each with its documents, so the caller can decide which to keep.
pub fn violations(live: &Vec<Violation>, index: Option<&str>) -> (body: Json)
    ensures
        match index {
            None => exists|rows: Seq<(Seq<char>, u64)>|
                tallies(live@, live@.len(), rows) && body@ == JsonView::Object(
                    seq![
                        ("count"@, JsonView::Number(JsonNumber::PosInt(live@.len() as u64))),
                        ("indexes"@, JsonView::Array(#[trigger] tally_view(rows))),
                    ],
                ),
            Some(name) => {
                let found = groups(live@, name@, live@.len());
                body@ == JsonView::Object(
                    seq![
                        ("index"@, JsonView::String(name@)),
                        ("count"@, JsonView::Number(JsonNumber::PosInt(found.len() as u64))),
                        ("groups"@, JsonView::Array(found)),
                    ],
                )
            },
        },
{
    broadcast use json_view;

    let name = match index {
        None => {
            let rows = tally(live);
            let mut list: Vec<Json> = Vec::new();
            let mut i: usize = 0;
            let ghost expected = tally_view(row_views(rows@));
            while i < rows.len()
                invariant
                    i <= rows.len(),
                    list@.len() == i,
                    expected == tally_view(row_views(rows@)),
                    forall|k: int| 0 <= k < i ==> (#[trigger] list@[k])@ == expected[k],
                decreases rows.len() - i,
            {
                let members: Vec<(String, Json)> = vec![
                    ("name".to_owned(), Json::String(rows[i].0.clone())),
                    ("count".to_owned(), Json::Number(JsonNumber::PosInt(rows[i].1))),
                ];
                assert(json_members(members@) =~= expected[i as int]->Object_0);
                let row = Json::Object(members);
                proof {
                    json_view(row);
                }
                list.push(row);
                i = i + 1;
            }
            assert(json_items(list@) =~= expected);
            let body: Vec<(String, Json)> = vec![
                ("count".to_owned(), Json::Number(JsonNumber::PosInt(live.len() as u64))),
                ("indexes".to_owned(), Json::Array(list)),
            ];
            assert(json_members(body@) =~= seq![
                ("count"@, JsonView::Number(JsonNumber::PosInt(live@.len() as u64))),
                ("indexes"@, JsonView::Array(expected)),
            ]);
            return Json::Object(body);
        },
        Some(name) => name,
    };
    let mut found: Vec<Json> = Vec::new();
    let mut i: usize = 0;
    assert(json_items(found@) =~= Seq::<JsonView>::empty());
    while i < live.len()
        invariant
            i <= live.len(),
            json_items(found@) == groups(live@, name@, i as nat),
        decreases live.len() - i,
    {
        assert(json_items(found@).len() == found@.len());
        if *live[i].index.as_str() == *name && found.len() < MAX_LIMIT {
            let ghost before = found@;
            let made = violation_to_json(&live[i]);
            found.push(made);
            assert(json_items(found@) =~= json_items(before).push(made@));
        }
        i = i + 1;
    }
    assert(json_items(found@).len() == found@.len());
    let body: Vec<(String, Json)> = vec![
        ("index".to_owned(), Json::String(name.to_owned())),
        ("count".to_owned(), Json::Number(JsonNumber::PosInt(found.len() as u64))),
        ("groups".to_owned(), Json::Array(found)),
    ];
    let ghost expected = groups(live@, name@, live@.len());
    assert(json_members(body@) =~= seq![
        ("index"@, JsonView::String(name@)),
        ("count"@, JsonView::Number(JsonNumber::PosInt(expected.len() as u64))),
        ("groups"@, JsonView::Array(expected)),
    ]);
    Json::Object(body)
}

/// The filter document of a request, or why it is none. A request without a
/// filter matches everything.
pub fn parse_filter(value: Option<&Json>) -> (filter: Result<Option<Document>, ApiError>)
    requires
        value matches Some(v) ==> valid(v@),
    ensures
        match value {
            None => filter == Ok::<Option<Document>, ApiError>(None),
            Some(v) => match (filter, document_of(v@)) {
                (Ok(Some(doc)), Ok(members)) => bson_members(doc@) == members,
                (Err(e), Err(expected)) => e@ == expected,
                _ => false,
            },
        },
{
    match value {
        None => Ok(None),
        Some(v) => match json_to_document(v) {
            Ok(doc) => Ok(Some(doc)),
            Err(e) => Err(e),
        },
    }
}

/// The `_id` of a document that came out of storage.
///
/// Every stored document has one, so this failing means that the record is
/// corrupt rather than the request being wrong.
pub fn document_id<'a>(doc: &'a Document) -> (id: Result<&'a Bson, ApiError>)
    ensures
        match (id, lookup(bson_members(doc@), ID_FIELD@)) {
            (Ok(value), Some(expected)) => value@ == expected,
            (Err(e), None) => e@ == internal("a stored document has no _id"@),
            _ => false,
        },
{
    match get(doc, ID_FIELD) {
        Some(value) => Ok(value),
        None => Err(ApiError::internal("a stored document has no _id")),
    }
}

/// The time in milliseconds since the epoch, from what a clock says has passed
/// since then: 0 where it is set before the epoch.
pub fn now_millis(since_epoch_ms: Option<u128>) -> (now: i64)
    ensures
        since_epoch_ms is None ==> now == 0,
        since_epoch_ms matches Some(ms) ==> (ms - now) % 0x1_0000_0000_0000_0000 == 0,
{
    match since_epoch_ms {
        None => 0,
        Some(ms) => {
            let low: u64 = (ms % 0x1_0000_0000_0000_0000) as u64;
            assert((ms - low) % 0x1_0000_0000_0000_0000 == 0);
            if low < 0x8000_0000_0000_0000 {
                low as i64
            } else {
                let over: i64 = (low - 0x8000_0000_0000_0000) as i64;
                i64::MIN + over
            }
        },
    }
}

} // verus!
