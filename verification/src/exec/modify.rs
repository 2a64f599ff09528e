//! `find_and_modify`: one document chosen, changed and returned.

use vstd::prelude::*;
use vstd::string::*;

use super::query::{is_part, part_refused, read_part, valid_part};
use super::scan::{chosen_access, Access, Candidate, IndexScan, Probe};
use super::write::{
    decoded_stamp, is_change, parse_if_stamp, parse_update, stamped, update_refused,
};
use crate::error::{bad_request, core_refusal, ApiError, ApiErrorView, CoreError};
use crate::json::{
    bson_members, bson_to_json, document_to_json, json_members, json_of,
    json_of_members, valid, Bson, BsonView, Document, Json, JsonNumber, JsonView,
};

verus! {

/// Which image the caller wants back.
#[derive(Clone, Copy, Debug, PartialEq, Eq, Structural)]
pub enum ReturnDocument {
    Before,
    After,
}

impl Default for ReturnDocument {
    fn default() -> (r: Self)
        ensures
            r == ReturnDocument::Before,
    {
        ReturnDocument::Before
    }
}

/// A `find_and_modify` request.
#[derive(Debug)]
pub struct FindAndModifySpec {
    pub filter: Option<Json>,
    pub sort: Option<Json>,
    /// Update operators, or a whole replacement document.
    pub update: Option<Json>,
    pub remove: bool,
    pub upsert: bool,
    pub return_document: ReturnDocument,
    pub projection: Option<Json>,
    /// Write only if the chosen document is at this stamp: what decoding it came
    /// to.
    pub if_stamp: Option<Result<String, CoreError>>,
    /// Which elements the update's `$[<identifier>]` segments address.
    pub array_filters: Vec<Json>,
}

/// What the query language refuses of a request's documents: each is asked of the
/// document its name says, where there is one.
#[derive(Debug)]
pub struct Refusals {
    pub filter: Option<CoreError>,
    pub sort: Option<CoreError>,
    pub projection: Option<CoreError>,
    pub update: Option<CoreError>,
    /// Of applying the update to what an upsert is seeded with.
    pub upsert: Option<CoreError>,
}

/// What is asked of the engine.
#[derive(Debug)]
pub struct ModifyPlan {
    pub filter: Option<Document>,
    pub sort: Option<Document>,
    pub projection: Option<Document>,
    /// The update and its array filters; none removes.
    pub update: Option<(Document, Vec<Document>)>,
    pub expected: Option<String>,
}

/// Why a request is refused for what it asks, where it is: a request that asks
/// both to change and to remove a document has no defensible reading.
pub open spec fn shape_refused(spec: FindAndModifySpec) -> Option<ApiErrorView> {
    if spec.remove && spec.update is Some {
        Some(
            bad_request("find_and_modify takes either `update` or `remove: true`, not both"@),
        )
    } else if !spec.remove && spec.update is None {
        Some(bad_request("find_and_modify needs an `update`, or `remove: true`"@))
    } else if spec.remove && spec.upsert {
        Some(bad_request("`remove` cannot be combined with `upsert`"@))
    } else if spec.remove && spec.return_document == ReturnDocument::After {
        Some(
            bad_request("`remove` has no document after it; use returnDocument \"before\""@),
        )
    } else {
        None
    }
}

/// Why a request is refused before the engine is asked, where it is: the first of
/// its parts to be.
pub open spec fn modify_refused(spec: FindAndModifySpec, refused: Refusals) -> Option<
    ApiErrorView,
> {
    if shape_refused(spec) is Some {
        shape_refused(spec)
    } else if part_refused(spec.filter, refused.filter) is Some {
        part_refused(spec.filter, refused.filter)
    } else if part_refused(spec.sort, refused.sort) is Some {
        part_refused(spec.sort, refused.sort)
    } else if part_refused(spec.projection, refused.projection) is Some {
        part_refused(spec.projection, refused.projection)
    } else if spec.update is Some && update_refused(
        spec.update->0@,
        spec.array_filters@,
        refused.update,
    ) is Some {
        update_refused(spec.update->0@, spec.array_filters@, refused.update)
    } else if spec.upsert && refused.upsert is Some {
        Some(core_refusal(refused.upsert->0))
    } else if spec.if_stamp is Some && spec.if_stamp->0 is Err {
        Some(core_refusal(spec.if_stamp->0->Err_0))
    } else if spec.if_stamp is Some && spec.upsert {
        Some(bad_request("`if_stamp` cannot be combined with `upsert`"@))
    } else {
        None
    }
}

/// Whether a plan asks the engine for what a request says.
pub open spec fn plans(plan: ModifyPlan, spec: FindAndModifySpec) -> bool {
    &&& is_part(plan.filter, spec.filter)
    &&& is_part(plan.sort, spec.sort)
    &&& is_part(plan.projection, spec.projection)
    &&& is_change(
        plan.update,
        match spec.update {
            Some(value) => Some(value@),
            None => None,
        },
        spec.array_filters@,
    )
    &&& plan.expected == decoded_stamp(spec.if_stamp)
}

/// Every JSON value of a request is one that a document can be read from.
pub open spec fn valid_request(spec: FindAndModifySpec) -> bool {
    &&& valid_part(spec.filter)
    &&& valid_part(spec.sort)
    &&& valid_part(spec.projection)
    &&& valid_part(spec.update)
    &&& forall|i: int|
        0 <= i < spec.array_filters@.len() ==> valid((#[trigger] spec.array_filters@[i])@)
}

fn check_shape(spec: &FindAndModifySpec) -> (answer: Result<(), ApiError>)
    ensures
        match answer {
            Ok(_) => shape_refused(*spec) is None,
            Err(e) => shape_refused(*spec) == Some(e@),
        },
{
    if spec.remove && spec.update.is_some() {
        return Err(
            ApiError::bad_request(
                "find_and_modify takes either `update` or `remove: true`, not both",
            ),
        );
    }
    if !spec.remove && spec.update.is_none() {
        return Err(
            ApiError::bad_request("find_and_modify needs an `update`, or `remove: true`"),
        );
    }
    if spec.remove && spec.upsert {
        return Err(ApiError::bad_request("`remove` cannot be combined with `upsert`"));
    }
    match spec.return_document {
        ReturnDocument::After => {
            if spec.remove {
                return Err(
                    ApiError::bad_request(
                        "`remove` has no document after it; use returnDocument \"before\"",
                    ),
                );
            }
        },
        ReturnDocument::Before => {},
    }
    Ok(())
}

/// What is asked of the engine for a request, or why it is refused: the shape of
/// the request first, then each document in turn, then what an upsert would
/// start from, and its condition last.
pub fn find_and_modify(spec: FindAndModifySpec, refused: Refusals) -> (plan: Result<
    ModifyPlan,
    ApiError,
>)
    requires
        valid_request(spec),
    ensures
        match plan {
            Ok(plan) => modify_refused(spec, refused) is None && plans(plan, spec),
            Err(e) => modify_refused(spec, refused) == Some(e@),
        },
{
    match check_shape(&spec) {
        Ok(_) => {},
        Err(e) => {
            return Err(e);
        },
    }
    let filter = match read_part(&spec.filter, refused.filter) {
        Ok(filter) => filter,
        Err(e) => {
            return Err(e);
        },
    };
    let sort = match read_part(&spec.sort, refused.sort) {
        Ok(sort) => sort,
        Err(e) => {
            return Err(e);
        },
    };
    let projection = match read_part(&spec.projection, refused.projection) {
        Ok(projection) => projection,
        Err(e) => {
            return Err(e);
        },
    };
    let update = match &spec.update {
        None => None,
        Some(value) => match parse_update(value, &spec.array_filters) {
            Err(e) => {
                return Err(e);
            },
            Ok(parsed) => match refused.update {
                Some(why) => {
                    return Err(ApiError::from_core(why));
                },
                None => Some(parsed),
            },
        },
    };
    if spec.upsert {
        match refused.upsert {
            Some(why) => {
                return Err(ApiError::from_core(why));
            },
            None => {},
        }
    }
    let expected = match condition(spec.if_stamp, spec.upsert) {
        Ok(expected) => expected,
        Err(e) => {
            return Err(e);
        },
    };
    Ok(ModifyPlan { filter, sort, projection, update, expected })
}

/// The condition of a request, from what decoding its `if_stamp` came to. An
/// upsert says "create it if it is not there"; a stamp says "it must be there,
/// at this version". Both at once has no reading.
fn condition(decoded: Option<Result<String, CoreError>>, upsert: bool) -> (expected: Result<
    Option<String>,
    ApiError,
>)
    ensures
        match (expected, decoded) {
            (Ok(None), None) => true,
            (Ok(Some(stamp)), Some(Ok(s))) => !upsert && stamp == s,
            (Err(e), Some(Err(why))) => e@ == core_refusal(why),
            (Err(e), Some(Ok(s))) => upsert && e@ == bad_request(
                "`if_stamp` cannot be combined with `upsert`"@,
            ),
            _ => false,
        },
{
    match parse_if_stamp(decoded) {
        Ok(expected) => {
            if expected.is_some() && upsert {
                return Err(ApiError::bad_request("`if_stamp` cannot be combined with `upsert`"));
            }
            Ok(expected)
        },
        Err(e) => Err(e),
    }
}

/// What the engine did, with each image as the caller's projection leaves it.
#[derive(Debug)]
pub struct Modified {
    pub matched: bool,
    pub before: Option<Document>,
    pub after: Option<Document>,
    /// The id of a document that was created.
    pub upserted: Option<Bson>,
    /// The version the write produced.
    pub stamp: Option<String>,
}

/// A document in a response.
pub open spec fn image(doc: Option<Document>) -> JsonView {
    match doc {
        Some(doc) => JsonView::Object(json_of_members(bson_members(doc@))),
        None => JsonView::Null,
    }
}

/// The response's fields.
pub open spec fn modified_body(r: ReturnDocument, outcome: Modified) -> Seq<
    (Seq<char>, JsonView),
> {
    let body = seq![
        (
            "document"@,
            image(
                match r {
                    ReturnDocument::Before => outcome.before,
                    ReturnDocument::After => outcome.after,
                },
            ),
        ),
        (
            "matched"@,
            JsonView::Number(
                JsonNumber::PosInt(
                    if outcome.matched {
                        1
                    } else {
                        0
                    },
                ),
            ),
        ),
    ];
    let body = match outcome.upserted {
        Some(id) => body.push(("upsertedId"@, json_of(id@))),
        None => body,
    };
    stamped(
        body,
        match outcome.stamp {
            Some(stamp) if outcome.after is Some => Some(stamp@),
            _ => None,
        },
    )
}

fn show_image(doc: &Option<Document>) -> (v: Json)
    ensures
        v@ == image(*doc),
{
    match doc {
        Some(doc) => document_to_json(doc),
        None => Json::Null,
    }
}

/// The answer. The version is reported only for a document that still exists: a
/// removal produces a tombstone's stamp, which nothing can be conditional on.
pub fn modified(r: ReturnDocument, outcome: &Modified) -> (body: Json)
    ensures
        body@ == JsonView::Object(modified_body(r, *outcome)),
{
    broadcast use crate::json::json_view;

    let document = match r {
        ReturnDocument::Before => show_image(&outcome.before),
        ReturnDocument::After => show_image(&outcome.after),
    };
    let matched: u64 = if outcome.matched {
        1
    } else {
        0
    };
    let mut body: Vec<(String, Json)> = vec![
        ("document".to_owned(), document),
        ("matched".to_owned(), Json::Number(JsonNumber::PosInt(matched))),
    ];
    let ghost mut view = seq![
        ("document"@, document@),
        ("matched"@, JsonView::Number(JsonNumber::PosInt(matched))),
    ];
    assert(json_members(body@) =~= view);
    match &outcome.upserted {
        Some(id) => {
            body.push(("upsertedId".to_owned(), bson_to_json(id)));
            proof {
                view = view.push(("upsertedId"@, json_of(id@)));
            }
            assert(json_members(body@) =~= view);
        },
        None => {},
    }
    match &outcome.stamp {
        Some(stamp) => {
            if outcome.after.is_some() {
                body.push(("stamp".to_owned(), Json::String(stamp.clone())));
                proof {
                    view = view.push(("stamp"@, JsonView::String(stamp@)));
                }
                assert(json_members(body@) =~= view);
            }
        },
        None => {},
    }
    assert(view == modified_body(r, *outcome));
    Json::Object(body)
}

/// A condition on a field, as far as an upsert reads it.
#[derive(Debug)]
pub enum Condition {
    Eq(Bson),
    Other,
}

/// A filter, as far as an upsert reads it.
#[derive(Debug)]
pub enum Filter {
    And(Vec<Filter>),
    Field { path: String, conditions: Vec<Condition> },
    /// A filter whose equalities a match does not imply: `$or` and the like.
    Other,
}

/// A field's equality.
pub type Equality = (Seq<char>, BsonView);

/// The equalities among a field's first `n` conditions.
pub open spec fn field_equalities(
    path: Seq<char>,
    conditions: Seq<Condition>,
    n: nat,
) -> Seq<Equality>
    decreases n,
{
    if n == 0 {
        Seq::empty()
    } else {
        let before = field_equalities(path, conditions, (n - 1) as nat);
        match conditions[n - 1] {
            Condition::Eq(value) => before.push((path, value@)),
            Condition::Other => before,
        }
    }
}

/// The equalities a match of a filter necessarily satisfies, in its order. One
/// inside an `$or` is not implied by a match.
pub open spec fn equalities(filter: Filter) -> Seq<Equality>
    decreases filter, 0nat,
{
    match filter {
        Filter::And(branches) => branch_equalities(branches, branches@.len()),
        Filter::Field { path, conditions } => field_equalities(
            path@,
            conditions@,
            conditions@.len(),
        ),
        Filter::Other => Seq::empty(),
    }
}

/// The equalities of the first `n` branches.
pub open spec fn branch_equalities(branches: Vec<Filter>, n: nat) -> Seq<Equality>
    decreases branches, n,
{
    if n == 0 || n > branches@.len() {
        Seq::empty()
    } else {
        branch_equalities(branches, (n - 1) as nat) + equalities(branches@[n - 1])
    }
}

/// An equality that seeds an upsert: a path, dotted where it is nested, and the
/// value that stands there.
pub open spec fn seed_views(seeds: Seq<(String, &Bson)>) -> Seq<Equality> {
    Seq::new(seeds.len(), |i: int| (seeds[i].0@, seeds[i].1@))
}

/// Equality constraints a match necessarily satisfies, for seeding an upsert.
pub fn implied_equalities<'a>(filter: &'a Filter, out: &mut Vec<(String, &'a Bson)>)
    ensures
        seed_views(final(out)@) == seed_views(old(out)@) + equalities(*filter),
    decreases filter,
{
    let ghost start = seed_views(out@);
    match filter {
        Filter::And(branches) => {
            let mut i: usize = 0;
            assert(start + branch_equalities(*branches, 0) =~= start);
            while i < branches.len()
                invariant
                    i <= branches.len(),
                    decreases_to!(filter => branches),
                    seed_views(out@) == start + branch_equalities(*branches, i as nat),
                decreases branches.len() - i,
            {
                implied_equalities(&branches[i], out);
                assert(seed_views(out@) =~= start + branch_equalities(*branches, (i + 1) as nat));
                i = i + 1;
            }
        },
        Filter::Field { path, conditions } => {
            let mut i: usize = 0;
            assert(start + field_equalities(path@, conditions@, 0) =~= start);
            while i < conditions.len()
                invariant
                    i <= conditions.len(),
                    seed_views(out@) == start + field_equalities(path@, conditions@, i as nat),
                decreases conditions.len() - i,
            {
                match &conditions[i] {
                    Condition::Eq(value) => {
                        let ghost before = out@;
                        out.push((path.clone(), value));
                        assert(seed_views(out@) =~= seed_views(before).push((path@, value@)));
                        assert(seed_views(out@) =~= start + field_equalities(
                            path@,
                            conditions@,
                            (i + 1) as nat,
                        ));
                    },
                    Condition::Other => {},
                }
                i = i + 1;
            }
        },
        Filter::Other => {
            assert(start + Seq::<Equality>::empty() =~= start);
        },
    }
}

/// Where a filtered write looks.
#[derive(Debug, PartialEq, Eq)]
pub enum Candidates {
    Keys(Vec<Vec<u8>>),
    Index { name: String, both_bounds: bool },
    Scan,
}

/// An index plan, as far as a write reads it.
#[derive(Debug)]
pub struct IndexPlan {
    pub name: String,
    /// Both ends of a range were intersected: only sound while the index is not
    /// multikey, which the engine checks in the transaction that scans.
    pub both_bounds: bool,
}

/// Where a read or a write looks: the first of the primary key, an index and the
/// collection that the planner found.
pub open spec fn chosen_candidates(
    primary_key: Option<Vec<Vec<u8>>>,
    index: Option<IndexPlan>,
) -> Candidates {
    if primary_key is Some {
        Candidates::Keys(primary_key->0)
    } else if index is Some {
        Candidates::Index { name: index->0.name, both_bounds: index->0.both_bounds }
    } else {
        Candidates::Scan
    }
}

/// Where a filtered write looks, from what the planner chose: the primary key
/// first, then an index, then a scan, so an update is found exactly the way a
/// read is.
pub fn candidates_for(primary_key: Option<Vec<Vec<u8>>>, index: Option<IndexPlan>) -> (
    candidates: Candidates)
    ensures
        candidates == chosen_candidates(primary_key, index),
{
    match primary_key {
        Some(keys) => Candidates::Keys(keys),
        None => match index {
            Some(plan) => Candidates::Index { name: plan.name, both_bounds: plan.both_bounds },
            None => Candidates::Scan,
        },
    }
}

/// Whether these are the reads of these keys.
pub open spec fn probes_keys(probes: Option<Vec<Probe>>, keys: Option<Vec<Vec<u8>>>) -> bool {
    match (probes, keys) {
        (Some(probes), Some(keys)) => probes@.len() == keys@.len() && forall|i: int|
            0 <= i < keys@.len() ==> (#[trigger] probes@[i]).key@ == keys@[i]@,
        (None, None) => true,
        _ => false,
    }
}

/// Whether this is the scan of this plan's index.
pub open spec fn scans_plan(scan: Option<IndexScan>, plan: Option<IndexPlan>) -> bool {
    match (scan, plan) {
        (Some(scan), Some(plan)) => scan.name@ == plan.name@,
        (None, None) => true,
        _ => false,
    }
}

/// Whether a read over `access` looks exactly where `candidates` says.
pub open spec fn looks_where(access: Access, candidates: Candidates) -> bool {
    match (access, candidates) {
        (Access::Keys(probes), Candidates::Keys(keys)) => probes_keys(Some(probes), Some(keys)),
        (Access::Index { scan, .. }, Candidates::Index { name, .. }) => scan.name@ == name@,
        (Access::Scan(_), Candidates::Scan) => true,
        _ => false,
    }
}

/// A write is found exactly the way a read is: from what the planner chose, both
/// look under the same keys, in the same index, or through the collection.
pub proof fn a_write_looks_where_a_read_does(
    keys: Option<Vec<Vec<u8>>>,
    plan: Option<IndexPlan>,
    probes: Option<Vec<Probe>>,
    scan: Option<IndexScan>,
    records: Vec<Candidate>,
)
    requires
        probes_keys(probes, keys),
        scans_plan(scan, plan),
    ensures
        looks_where(chosen_access(probes, scan, records), chosen_candidates(keys, plan)),
{
}

} // verus!
