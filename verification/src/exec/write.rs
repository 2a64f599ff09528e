//! Writes: what is asked of the engine, what is refused before it, and what is
//! answered after.
//!
//! A stamp is given in its encoded form.

use vstd::prelude::*;
use vstd::string::*;

use super::query::{is_part, part_refused, read_part, valid_part};
use super::read::{id_named, parse_id, DocId};
use super::scan::{explained, json_size, size, QueryStats};
use crate::error::{
    bad_request, core_refusal, storage_refusal, ApiError, ApiErrorView, CoreError, StorageError,
};
use crate::json::{
    bson_members, bson_of, bson_to_json, json_items, json_members, json_of, json_to_document, valid,
    Bson, BsonView, Document, Json, JsonNumber, JsonView,
};
use crate::text::{decimal, push_decimal};

verus! {

/// Documents accepted by one bulk insert. A batch is one transaction, so the
/// whole of it is held in memory.
pub const MAX_BULK_INSERT: usize = 1000;

/// A stamp in a response.
pub open spec fn stamped(
    fields: Seq<(Seq<char>, JsonView)>,
    stamp: Option<Seq<char>>,
) -> Seq<(Seq<char>, JsonView)> {
    match stamp {
        Some(s) => fields.push(("stamp"@, JsonView::String(s))),
        None => fields,
    }
}

/// The text of an optional stamp.
pub open spec fn stamp_view(stamp: Option<&String>) -> Option<Seq<char>> {
    match stamp {
        Some(s) => Some(s@),
        None => None,
    }
}

fn push_stamp(fields: &mut Vec<(String, Json)>, stamp: Option<&String>)
    ensures
        json_members(final(fields)@) == stamped(json_members(old(fields)@), stamp_view(stamp)),
{
    let ghost before = json_members(fields@);
    match stamp {
        Some(s) => {
            fields.push(("stamp".to_owned(), Json::String(s.clone())));
            assert(json_members(fields@) =~= before.push(("stamp"@, JsonView::String(s@))));
        },
        None => {},
    }
}

/// The document of an insert, or why it is none.
pub fn insert(document: &Json) -> (doc: Result<Document, ApiError>)
    requires
        valid(document@),
    ensures
        match (doc, document_of(document@)) {
            (Ok(d), Ok(members)) => bson_members(d@) == members,
            (Err(e), Err(expected)) => e@ == expected,
            _ => false,
        },
{
    json_to_document(document)
}

/// The answer to an insert.
pub fn inserted(id: &Bson, stamp: &str) -> (body: Json)
    ensures
        body@ == JsonView::Object(
            seq![("insertedId"@, json_of(id@)), ("stamp"@, JsonView::String(stamp@))],
        ),
{
    broadcast use crate::json::json_view;

    let body: Vec<(String, Json)> = vec![
        ("insertedId".to_owned(), bson_to_json(id)),
        ("stamp".to_owned(), Json::String(stamp.to_owned())),
    ];
    assert(json_members(body@) =~= seq![
        ("insertedId"@, json_of(id@)),
        ("stamp"@, JsonView::String(stamp@)),
    ]);
    Json::Object(body)
}

/// An error with the offending document's position in front of its message.
pub open spec fn positioned(index: nat, e: ApiErrorView) -> ApiErrorView {
    ApiErrorView { message: "document at index "@ + decimal(index) + ": "@ + e.message, ..e }
}

/// Name the offending document's position without changing the error envelope.
/// A batch is all-or-nothing, so the position is the only thing that tells the
/// caller what to fix.
pub fn at_index(index: usize, e: ApiError) -> (answer: ApiError)
    ensures
        answer@ == positioned(index as nat, e@),
{
    let mut message = "document at index ".to_owned();
    push_decimal(&mut message, index as u64);
    message.append(": ");
    message.append(e.message.as_str());
    ApiError { message, ..e }
}

/// The document a JSON value is, or why it is none.
pub open spec fn document_of(value: JsonView) -> Result<Seq<(Seq<char>, BsonView)>, ApiErrorView> {
    match bson_of(value) {
        Ok(BsonView::Document(members)) => Ok(members),
        Ok(_) => Err(bad_request("expected a JSON object"@)),
        Err(e) => Err(e),
    }
}

/// The documents that the first `n` values are, or the position and the reason
/// of the first that is none.
pub open spec fn batch_of(values: Seq<Json>, n: nat) -> Result<
    Seq<Seq<(Seq<char>, BsonView)>>,
    ApiErrorView,
>
    decreases n,
{
    if n == 0 {
        Ok(Seq::empty())
    } else {
        match batch_of(values, (n - 1) as nat) {
            Err(e) => Err(e),
            Ok(before) => match document_of(values[n - 1]@) {
                Ok(members) => Ok(before.push(members)),
                Err(e) => Err(positioned((n - 1) as nat, e)),
            },
        }
    }
}

/// The views of a list of documents.
pub open spec fn document_views(docs: Seq<Document>) -> Seq<Seq<(Seq<char>, BsonView)>> {
    Seq::new(docs.len(), |i: int| bson_members(docs[i]@))
}

/// The documents of a bulk insert. Everything is converted before a transaction
/// is opened, so a malformed document never touches the engine.
pub fn insert_many(documents: &Vec<Json>) -> (batch: Result<Vec<Document>, ApiError>)
    requires
        forall|i: int| 0 <= i < documents@.len() ==> valid((#[trigger] documents@[i])@),
    ensures
        documents@.len() > MAX_BULK_INSERT ==> batch is Err && batch->Err_0@ == bad_request(
            "a bulk insert takes at most "@ + decimal(MAX_BULK_INSERT as nat)
                + " documents, got "@ + decimal(documents@.len()),
        ),
        documents@.len() <= MAX_BULK_INSERT ==> match (
            batch,
            batch_of(documents@, documents@.len()),
        ) {
            (Ok(docs), Ok(expected)) => document_views(docs@) == expected,
            (Err(e), Err(expected)) => e@ == expected,
            _ => false,
        },
{
    if documents.len() > MAX_BULK_INSERT {
        let mut text = "a bulk insert takes at most ".to_owned();
        push_decimal(&mut text, MAX_BULK_INSERT as u64);
        text.append(" documents, got ");
        push_decimal(&mut text, documents.len() as u64);
        return Err(ApiError::bad_request(text.as_str()));
    }
    let mut docs: Vec<Document> = Vec::new();
    let mut i: usize = 0;
    assert(document_views(docs@) =~= Seq::empty());
    while i < documents.len()
        invariant
            i <= documents.len(),
            documents@.len() <= MAX_BULK_INSERT,
            forall|k: int| 0 <= k < documents@.len() ==> valid((#[trigger] documents@[k])@),
            batch_of(documents@, i as nat) == Ok::<
                Seq<Seq<(Seq<char>, BsonView)>>,
                ApiErrorView,
            >(document_views(docs@)),
        decreases documents.len() - i,
    {
        match json_to_document(&documents[i]) {
            Ok(doc) => {
                let ghost before = docs@;
                docs.push(doc);
                assert(document_views(docs@) =~= document_views(before).push(bson_members(doc@)));
            },
            Err(e) => {
                proof {
                    lemma_batch_refused(documents@, (i + 1) as nat);
                }
                return Err(at_index(i, e));
            },
        }
        i = i + 1;
    }
    Ok(docs)
}

pub proof fn lemma_batch_refused(values: Seq<Json>, n: nat)
    requires
        n <= values.len(),
        batch_of(values, n) is Err,
    ensures
        batch_of(values, values.len()) == batch_of(values, n),
    decreases values.len() - n,
{
    if n < values.len() {
        assert(batch_of(values, n + 1) == batch_of(values, n));
        lemma_batch_refused(values, n + 1);
    }
}

/// Why the engine refused a batch: the document's position in front, where the
/// engine named one.
pub fn insert_many_failed(index: Option<usize>, cause: StorageError) -> (e: ApiError)
    ensures
        e@ == (match index {
            Some(i) => positioned(i as nat, storage_refusal(cause)),
            None => storage_refusal(cause),
        }),
{
    match index {
        Some(i) => at_index(i, ApiError::from_storage(cause)),
        None => ApiError::from_storage(cause),
    }
}

/// The ids of stored documents, as a response carries them.
pub open spec fn id_list(stored: Seq<(Bson, String)>) -> Seq<JsonView> {
    Seq::new(stored.len(), |i: int| json_of(stored[i].0@))
}

/// Their stamps, in the same order.
pub open spec fn stamp_list(stored: Seq<(Bson, String)>) -> Seq<JsonView> {
    Seq::new(stored.len(), |i: int| JsonView::String(stored[i].1@))
}

/// The answer to a bulk insert: every document's id, and every document's stamp
/// in the same place.
pub fn inserted_many(stored: &Vec<(Bson, String)>) -> (body: Json)
    ensures
        body@ == JsonView::Object(
            seq![
                ("inserted"@, size(stored@.len() as usize)),
                ("insertedIds"@, JsonView::Array(id_list(stored@))),
                ("stamps"@, JsonView::Array(stamp_list(stored@))),
            ],
        ),
{
    broadcast use crate::json::json_view;

    let mut ids: Vec<Json> = Vec::new();
    let mut stamps: Vec<Json> = Vec::new();
    let mut i: usize = 0;
    while i < stored.len()
        invariant
            i <= stored.len(),
            ids@.len() == i,
            stamps@.len() == i,
            forall|k: int| 0 <= k < i ==> (#[trigger] ids@[k])@ == json_of(stored@[k].0@),
            forall|k: int|
                0 <= k < i ==> (#[trigger] stamps@[k])@ == JsonView::String(stored@[k].1@),
        decreases stored.len() - i,
    {
        ids.push(bson_to_json(&stored[i].0));
        stamps.push(Json::String(stored[i].1.clone()));
        i = i + 1;
    }
    assert(json_items(ids@) =~= id_list(stored@));
    assert(json_items(stamps@) =~= stamp_list(stored@));
    let body: Vec<(String, Json)> = vec![
        ("inserted".to_owned(), json_size(stored.len())),
        ("insertedIds".to_owned(), Json::Array(ids)),
        ("stamps".to_owned(), Json::Array(stamps)),
    ];
    assert(json_members(body@) =~= seq![
        ("inserted"@, size(stored@.len() as usize)),
        ("insertedIds"@, JsonView::Array(id_list(stored@))),
        ("stamps"@, JsonView::Array(stamp_list(stored@))),
    ]);
    Json::Object(body)
}

/// A caller's `if_stamp`, given what decoding it came to: `None` when the write
/// is unconditional.
pub fn parse_if_stamp(decoded: Option<Result<String, CoreError>>) -> (expected: Result<
    Option<String>,
    ApiError,
>)
    ensures
        match (expected, decoded) {
            (Ok(None), None) => true,
            (Ok(Some(stamp)), Some(Ok(s))) => stamp == s,
            (Err(e), Some(Err(why))) => e@ == core_refusal(why),
            _ => false,
        },
{
    match decoded {
        Some(Ok(stamp)) => Ok(Some(stamp)),
        Some(Err(e)) => Err(ApiError::from_core(e)),
        None => Ok(None),
    }
}

/// A replace-by-id's options.
#[derive(Debug)]
pub struct ReplaceParams {
    /// Create the document when none exists.
    pub upsert: bool,
    /// Replace only if the document is at this stamp: what decoding it came to.
    pub if_stamp: Option<Result<String, CoreError>>,
}

impl Default for ReplaceParams {
    fn default() -> (p: Self)
        ensures
            !p.upsert,
            p.if_stamp is None,
    {
        ReplaceParams { upsert: false, if_stamp: None }
    }
}

/// A replace as the engine is asked for it.
#[derive(Debug)]
pub struct ReplaceRequest {
    pub id: DocId,
    pub document: Document,
    pub upsert: bool,
    pub expected: Option<String>,
}

/// What is asked of the engine for a replace, or why it is refused: a body that
/// is no document first, and then a stamp that does not decode.
pub fn replace(id: &str, document: &Json, params: ReplaceParams) -> (request: Result<
    ReplaceRequest,
    ApiError,
>)
    requires
        valid(document@),
    ensures
        match document_of(document@) {
            Err(e) => request is Err && request->Err_0@ == e,
            Ok(members) => match params.if_stamp {
                Some(Err(why)) => request is Err && request->Err_0@ == core_refusal(why),
                _ => {
                    &&& request is Ok
                    &&& request->Ok_0.id@ == id_named(id@)
                    &&& bson_members(request->Ok_0.document@) == members
                    &&& request->Ok_0.upsert == params.upsert
                    &&& request->Ok_0.expected == decoded_stamp(params.if_stamp)
                },
            },
        },
{
    let doc_id = match parse_id(id) {
        Ok(doc_id) => doc_id,
        Err(e) => {
            return Err(e);
        },
    };
    let doc = match json_to_document(document) {
        Ok(doc) => doc,
        Err(e) => {
            return Err(e);
        },
    };
    match parse_if_stamp(params.if_stamp) {
        Ok(expected) => Ok(
            ReplaceRequest { id: doc_id, document: doc, upsert: params.upsert, expected },
        ),
        Err(e) => Err(e),
    }
}

/// The stamp that decoding gave.
pub open spec fn decoded_stamp(if_stamp: Option<Result<String, CoreError>>) -> Option<String> {
    match if_stamp {
        Some(Ok(stamp)) => Some(stamp),
        _ => None,
    }
}

/// What is asked of the engine for a delete by id: the id, and the version it has
/// to be at.
pub fn delete_by_id(id: &str, if_stamp: Option<Result<String, CoreError>>) -> (request: Result<
    (DocId, Option<String>),
    ApiError,
>)
    ensures
        match if_stamp {
            Some(Err(why)) => request is Err && request->Err_0@ == core_refusal(why),
            _ => {
                &&& request is Ok
                &&& request->Ok_0.0@ == id_named(id@)
                &&& request->Ok_0.1 == decoded_stamp(if_stamp)
            },
        },
{
    let doc_id = match parse_id(id) {
        Ok(doc_id) => doc_id,
        Err(e) => {
            return Err(e);
        },
    };
    match parse_if_stamp(if_stamp) {
        Ok(expected) => Ok((doc_id, expected)),
        Err(e) => Err(e),
    }
}

/// What a replace came to.
#[derive(Debug)]
pub struct WriteOutcome {
    pub matched: bool,
    pub modified: bool,
    pub upserted: bool,
    /// The version the write produced.
    pub stamp: Option<String>,
}

/// One or none, as a count.
pub open spec fn one_if(b: bool) -> JsonView {
    JsonView::Number(
        JsonNumber::PosInt(
            if b {
                1
            } else {
                0
            },
        ),
    )
}

fn json_one_if(b: bool) -> (v: Json)
    ensures
        v@ == one_if(b),
{
    Json::Number(
        JsonNumber::PosInt(
            if b {
                1
            } else {
                0
            },
        ),
    )
}

/// The answer to a replace. Counts, not booleans, even though a replace touches
/// at most one document: `matched` is a number on every route.
pub fn replaced(outcome: &WriteOutcome) -> (body: Json)
    ensures
        body@ == JsonView::Object(
            stamped(
                seq![
                    ("matched"@, one_if(outcome.matched)),
                    ("modified"@, one_if(outcome.modified)),
                    ("upserted"@, JsonView::Bool(outcome.upserted)),
                ],
                match outcome.stamp {
                    Some(s) => Some(s@),
                    None => None,
                },
            ),
        ),
{
    broadcast use crate::json::json_view;

    let mut body: Vec<(String, Json)> = vec![
        ("matched".to_owned(), json_one_if(outcome.matched)),
        ("modified".to_owned(), json_one_if(outcome.modified)),
        ("upserted".to_owned(), Json::Bool(outcome.upserted)),
    ];
    assert(json_members(body@) =~= seq![
        ("matched"@, one_if(outcome.matched)),
        ("modified"@, one_if(outcome.modified)),
        ("upserted"@, JsonView::Bool(outcome.upserted)),
    ]);
    push_stamp(&mut body, outcome.stamp.as_ref());
    Json::Object(body)
}

/// The answer to a delete by id: whether there was a document, and the stamp of
/// its tombstone.
pub fn deleted_by_id(stamp: Option<&String>) -> (body: Json)
    ensures
        body@ == JsonView::Object(
            stamped(seq![("deleted"@, one_if(stamp is Some))], stamp_view(stamp)),
        ),
{
    broadcast use crate::json::json_view;

    let mut body: Vec<(String, Json)> = vec![
        ("deleted".to_owned(), json_one_if(stamp.is_some())),
    ];
    assert(json_members(body@) =~= seq![("deleted"@, one_if(stamp is Some))]);
    push_stamp(&mut body, stamp);
    Json::Object(body)
}

/// The documents that the first `n` values are, or the reason of the first that is
/// none.
pub open spec fn documents_of(values: Seq<JsonView>, n: nat) -> Result<
    Seq<Seq<(Seq<char>, BsonView)>>,
    ApiErrorView,
>
    decreases n,
{
    if n == 0 {
        Ok(Seq::empty())
    } else {
        match documents_of(values, (n - 1) as nat) {
            Err(e) => Err(e),
            Ok(before) => match document_of(values[n - 1]) {
                Ok(members) => Ok(before.push(members)),
                Err(e) => Err(e),
            },
        }
    }
}

proof fn lemma_first_that_is_none(values: Seq<JsonView>, n: nat, len: nat)
    requires
        n <= len,
        documents_of(values, n) is Err,
    ensures
        documents_of(values, len) == documents_of(values, n),
    decreases len,
{
    if n < len {
        lemma_first_that_is_none(values, n, (len - 1) as nat);
    }
}

/// Convert a list of values, stopping at the first that is no document.
pub fn to_documents(items: &Vec<Json>) -> (docs: Result<Vec<Document>, ApiError>)
    requires
        forall|i: int| 0 <= i < items@.len() ==> valid((#[trigger] items@[i])@),
    ensures
        match (docs, documents_of(json_items(items@), items@.len())) {
            (Ok(d), Ok(expected)) => document_views(d@) == expected,
            (Err(e), Err(expected)) => e@ == expected,
            _ => false,
        },
{
    let ghost all = json_items(items@);
    let mut docs: Vec<Document> = Vec::new();
    let mut i: usize = 0;
    assert(document_views(docs@) =~= Seq::<Seq<(Seq<char>, BsonView)>>::empty());
    while i < items.len()
        invariant
            i <= items.len(),
            all == json_items(items@),
            forall|i: int| 0 <= i < items@.len() ==> valid((#[trigger] items@[i])@),
            documents_of(all, i as nat) == Ok::<Seq<Seq<(Seq<char>, BsonView)>>, ApiErrorView>(
                document_views(docs@),
            ),
        decreases items.len() - i,
    {
        match json_to_document(&items[i]) {
            Ok(doc) => {
                let ghost before = docs@;
                docs.push(doc);
                assert(document_views(docs@) =~= document_views(before).push(bson_members(doc@)));
            },
            Err(e) => {
                proof {
                    lemma_first_that_is_none(all, i as nat + 1, all.len());
                }
                return Err(e);
            },
        }
        i = i + 1;
    }
    Ok(docs)
}

/// An update body and the request's `arrayFilters`, which are checked against
/// each other and so are read together: the filters first.
pub fn parse_update(update: &Json, array_filters: &Vec<Json>) -> (parsed: Result<
    (Document, Vec<Document>),
    ApiError,
>)
    requires
        valid(update@),
        forall|i: int| 0 <= i < array_filters@.len() ==> valid((#[trigger] array_filters@[i])@),
    ensures
        match documents_of(json_items(array_filters@), array_filters@.len()) {
            Err(e) => parsed is Err && parsed->Err_0@ == e,
            Ok(filters) => match document_of(update@) {
                Err(e) => parsed is Err && parsed->Err_0@ == e,
                Ok(members) => {
                    &&& parsed is Ok
                    &&& bson_members(parsed->Ok_0.0@) == members
                    &&& document_views(parsed->Ok_0.1@) == filters
                },
            },
        },
{
    let filters = match to_documents(array_filters) {
        Ok(filters) => filters,
        Err(e) => {
            return Err(e);
        },
    };
    match json_to_document(update) {
        Ok(doc) => Ok((doc, filters)),
        Err(e) => Err(e),
    }
}

/// A filtered write's parameters.
#[derive(Debug)]
pub struct WriteParams {
    pub filter: Option<Json>,
    /// Change every match rather than only the first.
    pub multi: bool,
    /// Report how the targets were found, and write nothing.
    pub explain: bool,
    /// Write only if the matched document is at this stamp: what decoding it came
    /// to. Single-document only: a version names one document.
    pub if_stamp: Option<Result<String, CoreError>>,
    /// Which elements the update's `$[<identifier>]` segments address. Meaningful
    /// to an update only; a delete has no paths.
    pub array_filters: Vec<Json>,
}

/// Every JSON value of a filtered write is one that a document can be read from.
pub open spec fn valid_write(params: WriteParams) -> bool {
    &&& valid_part(params.filter)
    &&& forall|i: int|
        0 <= i < params.array_filters@.len() ==> valid((#[trigger] params.array_filters@[i])@)
}

/// Why an update body is refused, where it is: an array filter that is no
/// document, a body that is none, or the query language's refusal of the two.
pub open spec fn update_refused(
    update: JsonView,
    array_filters: Seq<Json>,
    refused: Option<CoreError>,
) -> Option<ApiErrorView> {
    match documents_of(json_items(array_filters), array_filters.len()) {
        Err(e) => Some(e),
        Ok(_) => match document_of(update) {
            Err(e) => Some(e),
            Ok(_) => match refused {
                Some(why) => Some(core_refusal(why)),
                None => None,
            },
        },
    }
}

/// Why a filtered write is refused for its condition, where it is.
pub open spec fn condition_refused(params: WriteParams) -> Option<ApiErrorView> {
    if params.if_stamp is None {
        None
    } else if params.multi {
        Some(
            bad_request(
                "`if_stamp` names one document's version, so it cannot be combined with `multi: true`"@,
            ),
        )
    } else if params.explain {
        Some(
            bad_request(
                "`if_stamp` makes the write conditional on a version explain does not check, so it cannot be combined with `explain: true`"@,
            ),
        )
    } else {
        match params.if_stamp->0 {
            Ok(_) => None,
            Err(e) => Some(core_refusal(e)),
        }
    }
}

impl WriteParams {
    /// The caller's condition. Refused alongside `multi`, because one stamp
    /// cannot describe several documents, and alongside `explain`, because a
    /// plan does not check a version it never reads.
    pub fn expected(self) -> (stamp: Result<Option<String>, ApiError>)
        ensures
            match stamp {
                Err(e) => condition_refused(self) == Some(e@),
                Ok(None) => self.if_stamp is None,
                Ok(Some(s)) => condition_refused(self) is None && self.if_stamp == Some(
                    Ok::<String, CoreError>(s),
                ),
            },
    {
        if self.if_stamp.is_some() {
            if self.multi {
                return Err(
                    ApiError::bad_request(
                        "`if_stamp` names one document's version, so it cannot be combined with `multi: true`",
                    ),
                );
            }
            if self.explain {
                return Err(
                    ApiError::bad_request(
                        "`if_stamp` makes the write conditional on a version explain does not check, so it cannot be combined with `explain: true`",
                    ),
                );
            }
        }
        parse_if_stamp(self.if_stamp)
    }
}

/// What a filtered write comes to before the engine is asked.
#[derive(Debug)]
pub enum WriteStep {
    /// It is only to be explained: read the matches of a filter, no more than this
    /// many, and answer with how the read went.
    Explain { filter: Option<Document>, stop_after: Option<usize> },
    /// Write to the matches of a filter, under this condition, and to no more
    /// than this many of them. The change is an update and its array filters;
    /// none removes.
    Write {
        filter: Option<Document>,
        change: Option<(Document, Vec<Document>)>,
        expected: Option<String>,
        stop_after: Option<usize>,
    },
}

/// How many matches a filtered write may change.
pub open spec fn write_limit(multi: bool) -> Option<usize> {
    if multi {
        None
    } else {
        Some(1)
    }
}

/// Whether `change` is an update body and its array filters, and none where there
/// is no update.
pub open spec fn is_change(
    change: Option<(Document, Vec<Document>)>,
    update: Option<JsonView>,
    array_filters: Seq<Json>,
) -> bool {
    match (change, update) {
        (None, None) => true,
        (Some((body, filters)), Some(value)) => {
            &&& document_of(value) == Ok::<_, ApiErrorView>(bson_members(body@))
            &&& documents_of(json_items(array_filters), array_filters.len()) == Ok::<
                _,
                ApiErrorView,
            >(document_views(filters@))
        },
        _ => false,
    }
}

/// Whether `step` is what a filtered write comes to: the read that explains it,
/// or the write.
pub open spec fn is_step(step: WriteStep, params: WriteParams, update: Option<JsonView>) -> bool {
    match step {
        WriteStep::Explain { filter, stop_after } => {
            &&& params.explain
            &&& is_part(filter, params.filter)
            &&& stop_after == write_limit(params.multi)
        },
        WriteStep::Write { filter, change, expected, stop_after } => {
            &&& !params.explain
            &&& is_part(filter, params.filter)
            &&& is_change(change, update, params.array_filters@)
            &&& stop_after == write_limit(params.multi)
            &&& expected == decoded_stamp(params.if_stamp)
        },
    }
}

/// What the query language refuses of a filtered write's documents.
#[derive(Debug)]
pub struct WriteRefusals {
    pub filter: Option<CoreError>,
    pub update: Option<CoreError>,
}

/// Why an update is refused before anything is read, where it is: its filter,
/// then its body, then its condition.
pub open spec fn write_refused(
    update: Option<JsonView>,
    params: WriteParams,
    refused: WriteRefusals,
) -> Option<ApiErrorView> {
    if part_refused(params.filter, refused.filter) is Some {
        part_refused(params.filter, refused.filter)
    } else if update is Some && update_refused(
        update->0,
        params.array_filters@,
        refused.update,
    ) is Some {
        update_refused(update->0, params.array_filters@, refused.update)
    } else {
        condition_refused(params)
    }
}

/// What an update comes to before the engine is asked. `explain` plans the write
/// and reports it, and performs nothing.
pub fn update(update_json: &Json, params: WriteParams, refused: WriteRefusals) -> (step: Result<
    WriteStep,
    ApiError,
>)
    requires
        valid(update_json@),
        valid_write(params),
    ensures
        match step {
            Err(e) => write_refused(Some(update_json@), params, refused) == Some(e@),
            Ok(s) => write_refused(Some(update_json@), params, refused) is None && is_step(
                s,
                params,
                Some(update_json@),
            ),
        },
{
    let filter = match read_part(&params.filter, refused.filter) {
        Ok(filter) => filter,
        Err(e) => {
            return Err(e);
        },
    };
    let parsed = match parse_update(update_json, &params.array_filters) {
        Ok(parsed) => parsed,
        Err(e) => {
            return Err(e);
        },
    };
    match refused.update {
        Some(why) => {
            return Err(ApiError::from_core(why));
        },
        None => {},
    }
    let multi = params.multi;
    let explain = params.explain;
    let expected = match params.expected() {
        Ok(expected) => expected,
        Err(e) => {
            return Err(e);
        },
    };
    let stop_after: Option<usize> = if multi {
        None
    } else {
        Some(1)
    };
    if explain {
        return Ok(WriteStep::Explain { filter, stop_after });
    }
    Ok(WriteStep::Write { filter, change: Some(parsed), expected, stop_after })
}

/// What a delete comes to before the engine is asked: it is planned and explained
/// exactly as an update is.
pub fn delete(params: WriteParams, refused: WriteRefusals) -> (step: Result<WriteStep, ApiError>)
    requires
        valid_write(params),
    ensures
        match step {
            Err(e) => write_refused(None, params, refused) == Some(e@),
            Ok(s) => write_refused(None, params, refused) is None && is_step(
                s,
                params,
                None,
            ),
        },
{
    let filter = match read_part(&params.filter, refused.filter) {
        Ok(filter) => filter,
        Err(e) => {
            return Err(e);
        },
    };
    let multi = params.multi;
    let explain = params.explain;
    let expected = match params.expected() {
        Ok(expected) => expected,
        Err(e) => {
            return Err(e);
        },
    };
    let stop_after: Option<usize> = if multi {
        None
    } else {
        Some(1)
    };
    if explain {
        return Ok(WriteStep::Explain { filter, stop_after });
    }
    Ok(WriteStep::Write { filter, change: None, expected, stop_after })
}

/// The answer to an update that was only explained: the counts stay at the values
/// that mean "nothing happened".
pub fn explained_update(stats: &QueryStats) -> (body: Json)
    ensures
        body@ == JsonView::Object(
            seq![
                ("matched"@, size(0)),
                ("modified"@, size(0)),
                ("commits"@, size(0)),
                ("explain"@, JsonView::Object(explained(*stats))),
            ],
        ),
{
    broadcast use crate::json::json_view;

    let body: Vec<(String, Json)> = vec![
        ("matched".to_owned(), json_size(0)),
        ("modified".to_owned(), json_size(0)),
        ("commits".to_owned(), json_size(0)),
        ("explain".to_owned(), stats.to_json()),
    ];
    assert(json_members(body@) =~= seq![
        ("matched"@, size(0)),
        ("modified"@, size(0)),
        ("commits"@, size(0)),
        ("explain"@, JsonView::Object(explained(*stats))),
    ]);
    Json::Object(body)
}

/// The answer to a delete that was only explained.
pub fn explained_delete(stats: &QueryStats) -> (body: Json)
    ensures
        body@ == JsonView::Object(
            seq![
                ("deleted"@, size(0)),
                ("commits"@, size(0)),
                ("explain"@, JsonView::Object(explained(*stats))),
            ],
        ),
{
    broadcast use crate::json::json_view;

    let body: Vec<(String, Json)> = vec![
        ("deleted".to_owned(), json_size(0)),
        ("commits".to_owned(), json_size(0)),
        ("explain".to_owned(), stats.to_json()),
    ];
    assert(json_members(body@) =~= seq![
        ("deleted"@, size(0)),
        ("commits"@, size(0)),
        ("explain"@, JsonView::Object(explained(*stats))),
    ]);
    Json::Object(body)
}

/// What a filtered write came to.
#[derive(Debug)]
pub struct ModifyManyOutcome {
    pub matched: u64,
    pub modified: u64,
    pub commits: u64,
    /// The stamp of the last document written.
    pub stamp: Option<String>,
}

/// The stamp a filtered write produced, when there is exactly one to report: a
/// `multi` write has no single version by construction.
pub open spec fn one_stamp(multi: bool, outcome: ModifyManyOutcome) -> Option<Seq<char>> {
    if !multi && outcome.modified == 1 {
        match outcome.stamp {
            Some(s) => Some(s@),
            None => None,
        }
    } else {
        None
    }
}

fn single_stamp(multi: bool, outcome: &ModifyManyOutcome) -> (stamp: Option<&String>)
    ensures
        stamp_view(stamp) == one_stamp(multi, *outcome),
{
    if !multi && outcome.modified == 1 {
        outcome.stamp.as_ref()
    } else {
        None
    }
}

/// A number in a response.
pub open spec fn number(n: u64) -> JsonView {
    JsonView::Number(JsonNumber::PosInt(n))
}

/// The answer to an update.
pub fn updated(multi: bool, outcome: &ModifyManyOutcome) -> (body: Json)
    ensures
        body@ == JsonView::Object(
            stamped(
                seq![
                    ("matched"@, number(outcome.matched)),
                    ("modified"@, number(outcome.modified)),
                    ("commits"@, number(outcome.commits)),
                ],
                one_stamp(multi, *outcome),
            ),
        ),
{
    broadcast use crate::json::json_view;

    let mut body: Vec<(String, Json)> = vec![
        ("matched".to_owned(), Json::Number(JsonNumber::PosInt(outcome.matched))),
        ("modified".to_owned(), Json::Number(JsonNumber::PosInt(outcome.modified))),
        ("commits".to_owned(), Json::Number(JsonNumber::PosInt(outcome.commits))),
    ];
    assert(json_members(body@) =~= seq![
        ("matched"@, number(outcome.matched)),
        ("modified"@, number(outcome.modified)),
        ("commits"@, number(outcome.commits)),
    ]);
    push_stamp(&mut body, single_stamp(multi, outcome));
    Json::Object(body)
}

/// The answer to a delete.
pub fn deleted(multi: bool, outcome: &ModifyManyOutcome) -> (body: Json)
    ensures
        body@ == JsonView::Object(
            stamped(
                seq![
                    ("deleted"@, number(outcome.modified)),
                    ("commits"@, number(outcome.commits)),
                ],
                one_stamp(multi, *outcome),
            ),
        ),
{
    broadcast use crate::json::json_view;

    let mut body: Vec<(String, Json)> = vec![
        ("deleted".to_owned(), Json::Number(JsonNumber::PosInt(outcome.modified))),
        ("commits".to_owned(), Json::Number(JsonNumber::PosInt(outcome.commits))),
    ];
    assert(json_members(body@) =~= seq![
        ("deleted"@, number(outcome.modified)),
        ("commits"@, number(outcome.commits)),
    ]);
    push_stamp(&mut body, single_stamp(multi, outcome));
    Json::Object(body)
}

} // verus!
