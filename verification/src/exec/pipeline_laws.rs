//! What a pipeline, a join and a lookup by id give, whatever way each is carried
//! out.

use vstd::prelude::*;
use vstd::string::*;

use super::join::{JoinAction, JoinTurn, PipelineJoin};
use super::laws::{count_json, document_json, has_field, reads_as};
use super::modify::{equalities, implied_equalities, Condition, Equality, Filter};
use super::pipeline::{
    aggregate, held, joined, key_of, lookup_held, parse_pipeline, source_within, with_key, Keyed,
};
use super::read::{get_doc, get_doc_stamped, parse_id, DocId, DocIdView};
use crate::codec::{hex_text, hex_value};
use crate::error::{ApiError, ErrorCode};
use crate::json::{bson_members, BsonView, Document, Json, JsonView};
use crate::text::{decimal, signed_decimal, ten_to};

verus! {

/// The answer to a pipeline is every document that comes out of it, in order, and
/// their number.
pub proof fn a_pipeline_answers_with_every_document(docs: Vec<Document>, body: Json)
    requires
        call_ensures(aggregate, (&docs,), body),
    ensures
        has_field(
            body@,
            "documents"@,
            JsonView::Array(docs@.map_values(|d: Document| document_json(d))),
        ),
        has_field(body@, "count"@, count_json(docs@.len() as u64)),
{
    reveal_strlit("documents");
    reveal_strlit("count");
    let len: usize = docs.len();
    let m = body@->Object_0;
    assert(m[0].0 == "documents"@ && m[1].0 == "count"@);
    assert(m[0].1->Array_0 =~= docs@.map_values(|d: Document| document_json(d)));
}

/// A pipeline is a list of documents, each read in its place; anything else is
/// refused.
pub proof fn a_pipeline_is_a_list_of_documents(
    pipeline: Json,
    stages: Result<Vec<Document>, ApiError>,
)
    requires
        call_ensures(parse_pipeline, (&pipeline,), stages),
    ensures
        !(pipeline@ is Array) ==> stages is Err && stages->Err_0.status == 400,
        stages is Ok ==> pipeline@ is Array && stages->Ok_0@.len() == pipeline@->Array_0.len()
            && forall|i: int|
            0 <= i < stages->Ok_0@.len() ==> reads_as(
                #[trigger] stages->Ok_0@[i],
                pipeline@->Array_0[i],
            ),
{
    if stages is Ok {
        lemma_stages(stages->Ok_0@, pipeline@->Array_0, pipeline@->Array_0.len());
    }
}

proof fn lemma_stages(docs: Seq<Document>, values: Seq<JsonView>, n: nat)
    requires
        n <= values.len(),
        super::write::documents_of(values, n) == Ok::<
            Seq<Seq<(Seq<char>, BsonView)>>,
            crate::error::ApiErrorView,
        >(super::write::document_views(docs)),
    ensures
        docs.len() == n,
        forall|i: int| 0 <= i < n ==> reads_as(#[trigger] docs[i], values[i]),
    decreases n,
{
    let views = super::write::document_views(docs);
    assert(views.len() == docs.len());
    if n > 0 {
        let before = super::write::documents_of(values, (n - 1) as nat)->Ok_0;
        assert(views.drop_last() =~= before);
        assert(super::write::document_views(docs.drop_last()) =~= before);
        lemma_stages(docs.drop_last(), values, (n - 1) as nat);
        assert forall|i: int| 0 <= i < n implies reads_as(#[trigger] docs[i], values[i]) by {
            if i < n - 1 {
                assert(docs.drop_last()[i] == docs[i]);
            } else {
                assert(views[i] == bson_members(docs[i]@));
            }
        }
    }
}

/// A source is within its ceiling up to the ceiling itself.
pub proof fn a_source_may_reach_its_ceiling(
    found: usize,
    leading: bool,
    max: usize,
    within: Result<(), ApiError>,
)
    requires
        call_ensures(source_within, (found, leading, max), within),
    ensures
        within is Ok <==> found <= max,
        within is Err ==> within->Err_0.status == 400,
{
}

/// The foreign side of a key, in the order it is stored.
pub open spec fn side_of(foreign: Seq<Keyed>, key: Seq<u8>) -> Seq<Keyed> {
    foreign.filter(|f: Keyed| f.key is Some && f.key->0@ == key)
}

/// The foreign documents with a key, in the order they are stored.
pub open spec fn with_equal_key(foreign: Seq<Keyed>, key: Seq<u8>) -> Seq<BsonView> {
    side_of(foreign, key).map_values(|f: Keyed| BsonView::Document(bson_members(f.document@)))
}

/// A document is joined to every foreign document with its key, in the order they
/// are stored, and to none where it has no key.
pub proof fn a_document_is_joined_to_those_with_its_key(foreign: Vec<Keyed>, key: Seq<u8>)
    ensures
        joined(foreign@, Some(key)) == with_equal_key(foreign@, key),
        joined(foreign@, None).len() == 0,
{
    let len: usize = foreign.len();
    lemma_with_key(foreign@, key, foreign@.len());
    assert(foreign@.take(foreign@.len() as int) =~= foreign@);
    let equal = side_of(foreign@, key);
    let places = with_key(foreign@, key, foreign@.len());
    assert(places.len() == equal.len());
    assert forall|j: int| 0 <= j < places.len() implies #[trigger] joined(
        foreign@,
        Some(key),
    )[j] == BsonView::Document(bson_members(equal[j].document@)) by {
        assert(places[j] < foreign@.len());
    }
    let all = with_equal_key(foreign@, key);
    let found = joined(foreign@, Some(key));
    assert(found.len() == places.len());
    assert(all.len() == equal.len());
    assert forall|j: int| 0 <= j < found.len() implies #[trigger] found[j] == all[j] by {
        assert(joined(foreign@, Some(key))[j] == BsonView::Document(
            bson_members(equal[j].document@),
        ));
    }
    assert(found =~= all);
}

proof fn lemma_with_key(foreign: Seq<Keyed>, key: Seq<u8>, n: nat)
    requires
        n <= foreign.len() <= usize::MAX,
    ensures
        ({
            let places = with_key(foreign, key, n);
            let found = side_of(foreign.take(n as int), key);
            &&& places.len() == found.len()
            &&& forall|j: int|
                0 <= j < places.len() ==> (#[trigger] places[j]) < foreign.len() && foreign[places[j] as int] == found[j]
        }),
    decreases n,
{
    reveal(Seq::filter);
    if n > 0 {
        lemma_with_key(foreign, key, (n - 1) as nat);
        assert(foreign.take(n as int).drop_last() =~= foreign.take(n - 1));
    } else {
        assert(foreign.take(0) =~= Seq::<Keyed>::empty());
    }
}

/// A join holds each foreign document that some input is joined to, once.
pub proof fn a_join_holds_what_is_joined(input: Vec<Keyed>, foreign: Vec<Keyed>, n: usize)
    requires
        call_ensures(lookup_held, (&input, &foreign), n),
    ensures
        n == foreign@.filter(
            |f: Keyed|
                f.key is Some && exists|i: int|
                    0 <= i < input@.len() && (#[trigger] input@[i]).key is Some
                        && input@[i].key->0@ == f.key->0@,
        ).len(),
{
    lemma_held(input@, foreign@, foreign@.len());
    assert(foreign@.take(foreign@.len() as int) =~= foreign@);
}

proof fn lemma_held(input: Seq<Keyed>, foreign: Seq<Keyed>, n: nat)
    requires
        n <= foreign.len(),
    ensures
        held(input, foreign, n) == foreign.take(n as int).filter(
            |f: Keyed|
                f.key is Some && exists|i: int|
                    0 <= i < input.len() && (#[trigger] input[i]).key is Some
                        && input[i].key->0@ == f.key->0@,
        ).len(),
    decreases n,
{
    reveal(Seq::filter);
    if n > 0 {
        lemma_held(input, foreign, (n - 1) as nat);
        assert(foreign.take(n as int).drop_last() =~= foreign.take(n - 1));
        let f = foreign[n - 1];
        let key = key_of(f);
        if super::pipeline::wanted(input, key) {
            let i = choose|i: int| 0 <= i < input.len() && key_of(#[trigger] input[i]) == key;
            assert(input[i].key is Some && input[i].key->0@ == f.key->0@);
        }
        if f.key is Some && exists|i: int|
            0 <= i < input.len() && (#[trigger] input[i]).key is Some && input[i].key->0@
                == f.key->0@ {
            let i = choose|i: int|
                0 <= i < input.len() && (#[trigger] input[i]).key is Some && input[i].key->0@
                    == f.key->0@;
            assert(key_of(input[i]) == key);
        }
    } else {
        assert(foreign.take(0) =~= Seq::<Keyed>::empty());
    }
}

/// Whether every match of a filter has this value under this path: one of the
/// conditions on the path says so, in every branch of an `$and` it stands in.
pub open spec fn is_implied(filter: Filter, e: Equality) -> bool
    decreases filter,
{
    match filter {
        Filter::And(branches) => exists|i: int|
            0 <= i < branches@.len() && is_implied(#[trigger] branches@[i], e),
        Filter::Field { path, conditions } => path@ == e.0 && exists|i: int|
            0 <= i < conditions@.len() && (#[trigger] conditions@[i]) is Eq
                && conditions@[i]->Eq_0@ == e.1,
        Filter::Other => false,
    }
}

/// An upsert is seeded with the equalities that a match implies, and with no other:
/// nothing that stands in an `$or` or the like.
pub proof fn an_upsert_is_seeded_with_what_is_implied(filter: Filter, e: Equality)
    ensures
        equalities(filter).contains(e) <==> is_implied(filter, e),
    decreases filter, 0nat,
{
    match filter {
        Filter::And(branches) => {
            lemma_branches(branches, branches@.len(), e);
        },
        Filter::Field { path, conditions } => {
            lemma_conditions(path@, conditions@, conditions@.len(), e);
        },
        Filter::Other => {},
    }
}

/// What is gathered of a filter is what a match of it implies, behind what was
/// gathered before.
pub proof fn what_is_implied_is_gathered<'a>(
    filter: &'a Filter,
    out: &mut Vec<(String, &'a crate::json::Bson)>,
    e: Equality,
)
    requires
        call_ensures(implied_equalities, (filter, out), ()),
        old(out)@.len() == 0,
    ensures
        is_implied(*filter, e) <==> exists|i: int|
            0 <= i < final(out)@.len() && (#[trigger] final(out)@[i]).0@ == e.0
                && final(out)@[i].1@ == e.1,
{
    an_upsert_is_seeded_with_what_is_implied(*filter, e);
    let seeds = super::modify::seed_views(final(out)@);
    assert(super::modify::seed_views(old(out)@) =~= Seq::<Equality>::empty());
    assert(seeds =~= equalities(*filter));
    if seeds.contains(e) {
        let i = choose|i: int| 0 <= i < seeds.len() && seeds[i] == e;
        assert(final(out)@[i].0@ == e.0);
    }
    if exists|i: int|
        0 <= i < final(out)@.len() && (#[trigger] final(out)@[i]).0@ == e.0 && final(out)@[i].1@
            == e.1 {
        let i = choose|i: int|
            0 <= i < final(out)@.len() && (#[trigger] final(out)@[i]).0@ == e.0
                && final(out)@[i].1@ == e.1;
        assert(seeds[i] == e);
    }
}

proof fn lemma_branches(branches: Vec<Filter>, n: nat, e: Equality)
    requires
        n <= branches@.len(),
    ensures
        super::modify::branch_equalities(branches, n).contains(e) <==> exists|i: int|
            0 <= i < n && is_implied(#[trigger] branches@[i], e),
    decreases branches, n,
{
    if n > 0 {
        lemma_branches(branches, (n - 1) as nat, e);
        an_upsert_is_seeded_with_what_is_implied(branches@[n - 1], e);
        let a = super::modify::branch_equalities(branches, (n - 1) as nat);
        let b = equalities(branches@[n - 1]);
        let all = super::modify::branch_equalities(branches, n);
        assert(all == a + b);
        if all.contains(e) {
            let i = choose|i: int| 0 <= i < all.len() && all[i] == e;
            if i < a.len() {
                assert(a[i] == e);
            } else {
                assert(b[i - a.len()] == e);
            }
        }
        if a.contains(e) {
            let i = choose|i: int| 0 <= i < a.len() && a[i] == e;
            assert(all[i] == e);
        }
        if b.contains(e) {
            let i = choose|i: int| 0 <= i < b.len() && b[i] == e;
            assert(all[a.len() + i] == e);
        }
    }
}

proof fn lemma_conditions(path: Seq<char>, conditions: Seq<Condition>, n: nat, e: Equality)
    requires
        n <= conditions.len(),
    ensures
        super::modify::field_equalities(path, conditions, n).contains(e) <==> path == e.0
            && exists|i: int|
            0 <= i < n && (#[trigger] conditions[i]) is Eq && conditions[i]->Eq_0@ == e.1,
    decreases n,
{
    if n > 0 {
        lemma_conditions(path, conditions, (n - 1) as nat, e);
        let a = super::modify::field_equalities(path, conditions, (n - 1) as nat);
        let all = super::modify::field_equalities(path, conditions, n);
        if all.contains(e) {
            let i = choose|i: int| 0 <= i < all.len() && all[i] == e;
            if i < a.len() {
                assert(a[i] == e);
            }
        }
        if a.contains(e) {
            let i = choose|i: int| 0 <= i < a.len() && a[i] == e;
            assert(all[i] == e);
        }
        if conditions[n - 1] is Eq && path == e.0 && conditions[n - 1]->Eq_0@ == e.1 {
            assert(all[all.len() - 1] == e);
        }
    }
}

/// Whether a text is twenty-four hexadecimal digits.
pub open spec fn is_object_id(raw: Seq<char>) -> bool {
    raw.len() == 24 && forall|i: int| 0 <= i < 24 ==> is_hex_digit(#[trigger] raw[i])
}

/// Whether a character is a hexadecimal digit, of either case.
pub open spec fn is_hex_digit(c: char) -> bool {
    '0' <= c && c <= '9' || 'a' <= c && c <= 'f' || 'A' <= c && c <= 'F'
}

/// A path names a document by its shape: twenty-four hexadecimal digits are an
/// object id, a whole number that fits is a number, and anything else is the text
/// itself. A number as it is written names that number.
pub proof fn a_path_names_a_document_by_its_shape(raw: &str, id: DocId, n: i64)
    requires
        call_ensures(parse_id, (raw,), Ok::<DocId, ApiError>(id)),
    ensures
        id is ObjectId <==> is_object_id(raw@),
        id is String ==> id@ == DocIdView::String(raw@),
        raw@ == signed_decimal(n as int) ==> id == DocId::Int64(n),
{
    assert forall|c: char| #[trigger] is_hex_digit(c) == (hex_value(c) is Some) by {}
    if is_object_id(raw@) {
        assert forall|i: int| 0 <= i < 24 implies hex_value(#[trigger] raw@[i]) is Some by {
            assert(is_hex_digit(raw@[i]));
        }
    }
    if id is ObjectId {
        assert forall|i: int| 0 <= i < 24 implies is_hex_digit(#[trigger] raw@[i]) by {
            assert(hex_value(raw@[i]) is Some);
        }
    }
    crate::text::signed_decimal_reads_back(n as int);
    reveal_with_fuel(ten_to, 20);
    lemma_decimal_len(
        if n < 0 {
            (-n) as nat
        } else {
            n as nat
        },
        19,
    );
}

proof fn lemma_decimal_len(n: nat, k: nat)
    requires
        k >= 1,
        n < ten_to(k),
    ensures
        decimal(n).len() <= k,
    decreases k,
{
    if n >= 10 {
        assert(k > 1) by {
            reveal_with_fuel(ten_to, 2);
        }
        lemma_decimal_len(n / 10, (k - 1) as nat);
    }
}

/// An object id's own digits name it.
pub proof fn an_object_ids_digits_name_it(bytes: [u8; 12], raw: &str, id: DocId)
    requires
        call_ensures(parse_id, (raw,), Ok::<DocId, ApiError>(id)),
        raw@ == hex_text(bytes@),
    ensures
        id@ == DocIdView::ObjectId(bytes@),
{
    crate::codec::object_id_reads_back(bytes@);
}

/// A document is returned as it is stored, with its version; where there is none,
/// that is said of the id that was asked for.
pub proof fn a_document_is_returned_as_it_is_stored(
    id: &str,
    found: Option<(String, &Document)>,
    stamped: Result<(String, Json), ApiError>,
    plain: Result<Json, ApiError>,
)
    requires
        call_ensures(get_doc_stamped, (id, found), stamped),
        call_ensures(get_doc, (id, found), plain),
    ensures
        stamped is Ok <==> found is Some,
        plain is Ok <==> found is Some,
        found is Some ==> (stamped->Ok_0).0 == (found->0).0 && (stamped->Ok_0).1@
            == document_json(*(found->0).1) && plain->Ok_0@ == document_json(*(found->0).1),
        found is None ==> stamped->Err_0.status == 404 && plain->Err_0.status == 404
            && stamped->Err_0.code == ErrorCode::NotFound && stamped->Err_0.message@
            == "no document with _id "@ + id@,
{
}

/// A join puts under its field, in each input document, the foreign documents with
/// its key; the field is a list even where there is none, and the rest of the
/// document stays.
pub proof fn a_join_puts_what_is_joined_under_its_field(
    input: &mut Vec<Keyed>,
    foreign: Vec<Keyed>,
    as_field: &str,
    i: int,
    name: Seq<char>,
)
    requires
        call_ensures(super::pipeline::lookup, (input, &foreign, as_field), ()),
        0 <= i < old(input)@.len(),
    ensures
        final(input)@.len() == old(input)@.len(),
        old(input)@[i].key is Some ==> crate::json::lookup(
            bson_members(final(input)@[i].document@),
            as_field@,
        ) == Some(BsonView::Array(with_equal_key(foreign@, old(input)@[i].key->0@))),
        old(input)@[i].key is None ==> crate::json::lookup(
            bson_members(final(input)@[i].document@),
            as_field@,
        ) == Some(BsonView::Array(Seq::empty())),
        name != as_field@ ==> crate::json::lookup(
            bson_members(final(input)@[i].document@),
            name,
        ) == crate::json::lookup(bson_members(old(input)@[i].document@), name),
{
    let before = bson_members(old(input)@[i].document@);
    let key = key_of(old(input)@[i]);
    let found = BsonView::Array(joined(foreign@, key));
    crate::dispatch::lemma_lookup_put(before, as_field@, found);
    assert(bson_members(final(input)@[i].document@) == crate::json::put(before, as_field@, found));
    match key {
        Some(k) => {
            a_document_is_joined_to_those_with_its_key(foreign, k);
        },
        None => {
            assert(joined(foreign@, None) =~= Seq::<BsonView>::empty());
        },
    }
}

/// A join that runs a sub-pipeline asks for each thing in its turn: it reads, holds
/// what it read against the ceiling, runs a leading `$match` once, and then for each
/// input the stages behind that, holding the total against the ceiling.
pub proof fn a_pipeline_join_asks_in_turn(join: PipelineJoin, action: JoinAction)
    requires
        join.wf(),
        call_ensures(PipelineJoin::action, (&join,), action),
    ensures
        join@.turn == JoinTurn::Read ==> action == JoinAction::Read,
        join@.turn == JoinTurn::Ceiling ==> action is Check && action->held == join@.foreign,
        join@.turn == JoinTurn::First ==> action == JoinAction::Filter,
        join@.turn == JoinTurn::Input && join@.leading_match ==> action is Run && action->at
            == join@.at && action->from == 1,
        join@.turn == JoinTurn::Input && !join@.leading_match ==> action is Run && action->at
            == join@.at && action->from == 0,
        join@.turn == JoinTurn::Total ==> action is Check && action->held == join@.held
            + join@.joined.len(),
        join@.turn == JoinTurn::Over ==> action == JoinAction::Done,
{
}

/// A document's sub-pipeline puts what it returned under the join's field, counts it,
/// and leaves the rest of the document.
pub proof fn a_sub_pipelines_documents_stand_under_the_field(
    doc: &mut Document,
    as_field: &str,
    joined: Vec<Document>,
    held: &mut usize,
    name: Seq<char>,
)
    requires
        call_ensures(super::pipeline::lookup_pipeline, (doc, as_field, &joined, held), ()),
    ensures
        *final(held) == *old(held) + joined@.len(),
        crate::json::lookup(bson_members(final(doc)@), as_field@) == Some(
            BsonView::Array(
                Seq::new(
                    joined@.len(),
                    |i: int| BsonView::Document(bson_members(joined@[i]@)),
                ),
            ),
        ),
        name != as_field@ ==> crate::json::lookup(bson_members(final(doc)@), name)
            == crate::json::lookup(bson_members(old(doc)@), name),
{
    let found = BsonView::Array(super::pipeline::as_values(joined@));
    crate::dispatch::lemma_lookup_put(bson_members(old(doc)@), as_field@, found);
    assert(super::pipeline::as_values(joined@) =~= Seq::new(
        joined@.len(),
        |i: int| BsonView::Document(bson_members(joined@[i]@)),
    ));
}

} // verus!
