//! Aggregation: the source a pipeline reads, and the joins that read a second
//! collection.

use std::collections::HashMap;

use vstd::prelude::*;
use vstd::string::*;

use super::scan::{behind, collect_matching, json_size, matching, offered, size, Access, Candidate};
use super::write::{document_views, documents_of, to_documents};
use crate::error::{bad_request, ApiError, ApiErrorView};
use crate::json::{
    bson_items, bson_members, bson_view, copy_document, document_to_json, json_items, json_members,
    json_of_members, json_view, put, put_bson, valid, Bson, BsonView, Document, Json, JsonView,
};
use crate::ownership::{fnv, fnv_of};
use crate::text::{decimal, push_decimal};

verus! {

/// The stage documents of a pipeline, or why it is none.
pub fn parse_pipeline(pipeline: &Json) -> (stages: Result<Vec<Document>, ApiError>)
    requires
        valid(pipeline@),
    ensures
        match pipeline@ {
            JsonView::Array(items) => match (stages, documents_of(items, items.len())) {
                (Ok(docs), Ok(expected)) => document_views(docs@) == expected,
                (Err(e), Err(expected)) => e@ == expected,
                _ => false,
            },
            _ => stages is Err && stages->Err_0@ == bad_request(
                "pipeline must be an array of stages"@,
            ),
        },
{
    broadcast use json_view;

    let items = match pipeline {
        Json::Array(items) => items,
        _ => {
            return Err(ApiError::bad_request("pipeline must be an array of stages"));
        },
    };
    assert forall|i: int| 0 <= i < items@.len() implies valid((#[trigger] items@[i])@) by {
        assert(pipeline@->Array_0[i] == items@[i]@);
    }
    to_documents(items)
}

/// What a pipeline's source is called in a refusal.
pub open spec fn source_name(leading_match: bool) -> Seq<char> {
    if leading_match {
        "the leading $match"@
    } else {
        "the source collection"@
    }
}

/// The refusal of a source that holds more than a pipeline may.
pub open spec fn source_too_large(leading_match: bool, max: usize) -> ApiErrorView {
    bad_request(
        source_name(leading_match) + " admits more than "@ + decimal(max as nat)
            + " documents, the pipeline limit. Narrow it with a more selective $match"@,
    )
}

/// The documents a pipeline starts from: what its leading `$match` leaves of the
/// collection, or all of it. The ceiling is on what the filter lets through, not
/// on what the collection holds, and the scan stops as soon as it is over.
pub fn aggregate_with_limits<'a>(access: &'a Access, leading_match: bool, max: usize) -> (
    source: Result<Vec<&'a Candidate>, ApiError>)
    requires
        max < usize::MAX,
    ensures
        ({
            let matches = matching(offered(*access, None));
            if matches.len() > max {
                source is Err && source->Err_0@ == source_too_large(leading_match, max)
            } else {
                source is Ok && behind(source->Ok_0@) == matches
            }
        }),
{
    let visit = collect_matching(access, Some(max + 1));
    let ghost all = offered(*access, None);
    proof {
        super::scan::a_bound_keeps_the_first_matches(all, (max + 1) as nat);
        let matches = matching(all);
        assert(behind(visit.matches@).len() == visit.matches@.len());
        if matches.len() <= max {
            assert(behind(visit.matches@) =~= matches);
        }
    }
    match source_within(visit.matches.len(), leading_match, max) {
        Ok(()) => Ok(visit.matches),
        Err(e) => Err(e),
    }
}

/// Whether a pipeline may start from as many documents as were found.
pub fn source_within(found: usize, leading_match: bool, max: usize) -> (within: Result<
    (),
    ApiError,
>)
    ensures
        match within {
            Ok(_) => found <= max,
            Err(e) => found > max && e@ == source_too_large(leading_match, max),
        },
{
    if found > max {
        let mut text = (if leading_match {
            "the leading $match"
        } else {
            "the source collection"
        }).to_owned();
        text.append(" admits more than ");
        push_decimal(&mut text, max as u64);
        text.append(" documents, the pipeline limit. Narrow it with a more selective $match");
        return Err(ApiError::bad_request(text.as_str()));
    }
    Ok(())
}

/// Documents in a response.
pub open spec fn document_list(docs: Seq<Document>) -> Seq<JsonView> {
    Seq::new(docs.len(), |i: int| JsonView::Object(json_of_members(bson_members(docs[i]@))))
}

/// The answer to a pipeline.
pub fn aggregate(docs: &Vec<Document>) -> (body: Json)
    ensures
        body@ == JsonView::Object(
            seq![
                ("documents"@, JsonView::Array(document_list(docs@))),
                ("count"@, size(docs@.len() as usize)),
            ],
        ),
{
    broadcast use json_view;

    let mut documents: Vec<Json> = Vec::new();
    let mut i: usize = 0;
    while i < docs.len()
        invariant
            i <= docs.len(),
            documents@.len() == i,
            forall|k: int| 0 <= k < i ==> (#[trigger] documents@[k])@ == document_list(docs@)[k],
        decreases docs.len() - i,
    {
        documents.push(document_to_json(&docs[i]));
        i = i + 1;
    }
    assert(json_items(documents@) =~= document_list(docs@));
    let body: Vec<(String, Json)> = vec![
        ("documents".to_owned(), Json::Array(documents)),
        ("count".to_owned(), json_size(docs.len())),
    ];
    assert(json_members(body@) =~= seq![
        ("documents"@, JsonView::Array(document_list(docs@))),
        ("count"@, size(docs@.len() as usize)),
    ]);
    Json::Object(body)
}

/// A document with its join key, where the field it joins on has one.
#[derive(Debug)]
pub struct Keyed {
    pub key: Option<Vec<u8>>,
    pub document: Document,
}

/// The bytes of a join key.
pub open spec fn key_of(side: Keyed) -> Option<Seq<u8>> {
    match side.key {
        Some(key) => Some(key@),
        None => None,
    }
}

/// Where the documents with a key stand among the first `n`, in order.
pub open spec fn with_key(side: Seq<Keyed>, key: Seq<u8>, n: nat) -> Seq<usize>
    decreases n,
{
    if n == 0 {
        Seq::empty()
    } else {
        let before = with_key(side, key, (n - 1) as nat);
        if key_of(side[n - 1]) == Some(key) {
            before.push((n - 1) as usize)
        } else {
            before
        }
    }
}

/// The foreign documents that join a key, in the order they are stored. A
/// document without a key joins nothing.
pub open spec fn joined(foreign: Seq<Keyed>, key: Option<Seq<u8>>) -> Seq<BsonView> {
    match key {
        Some(key) => {
            let places = with_key(foreign, key, foreign.len());
            Seq::new(
                places.len(),
                |j: int| BsonView::Document(bson_members(foreign[places[j] as int].document@)),
            )
        },
        None => Seq::empty(),
    }
}

/// How many of the first `n` foreign documents join some input.
pub open spec fn held(input: Seq<Keyed>, foreign: Seq<Keyed>, n: nat) -> nat
    decreases n,
{
    if n == 0 {
        0
    } else {
        held(input, foreign, (n - 1) as nat) + (if wanted(input, key_of(foreign[n - 1])) {
            1nat
        } else {
            0
        })
    }
}

/// Whether some input has this key.
pub open spec fn wanted(input: Seq<Keyed>, key: Option<Seq<u8>>) -> bool {
    key is Some && exists|i: int| 0 <= i < input.len() && key_of(#[trigger] input[i]) == key
}

/// Where the documents whose key has a hash stand among the first `n`, in order.
spec fn with_hash(side: Seq<Keyed>, h: u64, n: nat) -> Seq<usize>
    decreases n,
{
    if n == 0 {
        Seq::empty()
    } else {
        let before = with_hash(side, h, (n - 1) as nat);
        match key_of(side[n - 1]) {
            Some(key) if fnv(key) == h => before.push((n - 1) as usize),
            _ => before,
        }
    }
}

/// Those of some places at which a key stands.
spec fn at_key(side: Seq<Keyed>, places: Seq<usize>, key: Seq<u8>) -> Seq<usize>
    decreases places.len(),
{
    if places.len() == 0 {
        Seq::empty()
    } else {
        let before = at_key(side, places.drop_last(), key);
        if key_of(side[places.last() as int]) == Some(key) {
            before.push(places.last())
        } else {
            before
        }
    }
}

proof fn lemma_hash_finds_key(side: Seq<Keyed>, key: Seq<u8>, n: nat)
    requires
        n <= side.len() <= usize::MAX,
    ensures
        at_key(side, with_hash(side, fnv(key), n), key) == with_key(side, key, n),
    decreases n,
{
    if n > 0 {
        let before = with_hash(side, fnv(key), (n - 1) as nat);
        lemma_hash_finds_key(side, key, (n - 1) as nat);
        assert(before.push((n - 1) as usize).drop_last() =~= before);
    }
}

proof fn lemma_places(side: Seq<Keyed>, key: Seq<u8>, n: nat)
    requires
        n <= side.len() <= usize::MAX,
    ensures
        forall|j: int|
            0 <= j < with_key(side, key, n).len() ==> (#[trigger] with_key(side, key, n)[j]) < n
                && key_of(side[with_key(side, key, n)[j] as int]) == Some(key),
        forall|i: int|
            0 <= i < n && key_of(#[trigger] side[i]) == Some(key) ==> with_key(side, key, n).len()
                > 0,
    decreases n,
{
    if n > 0 {
        lemma_places(side, key, (n - 1) as nat);
    }
}

proof fn lemma_hash_places(side: Seq<Keyed>, h: u64, n: nat)
    requires
        n <= side.len() <= usize::MAX,
    ensures
        forall|j: int|
            0 <= j < with_hash(side, h, n).len() ==> (#[trigger] with_hash(side, h, n)[j]) < n,
    decreases n,
{
    if n > 0 {
        lemma_hash_places(side, h, (n - 1) as nat);
        let before = with_hash(side, h, (n - 1) as nat);
        assert(with_hash(side, h, n) == before || with_hash(side, h, n) == before.push(
            (n - 1) as usize,
        ));
    }
}

/// Where each key of one side of a join stands, found in one pass over it.
struct Places {
    slots: HashMap<u64, Vec<usize>>,
}

impl Places {
    spec fn of(self, side: Seq<Keyed>, n: nat) -> bool {
        forall|h: u64|
            #![trigger self.slots@.contains_key(h)]
            if self.slots@.contains_key(h) {
                self.slots@[h]@ == with_hash(side, h, n)
            } else {
                with_hash(side, h, n).len() == 0
            }
    }

    fn new(side: &Vec<Keyed>) -> (places: Self)
        ensures
            places.of(side@, side@.len()),
    {
        broadcast use vstd::std_specs::hash::group_hash_axioms;

        let mut places = Places { slots: HashMap::new() };
        let mut n: usize = 0;
        while n < side.len()
            invariant
                n <= side.len(),
                places.of(side@, n as nat),
            decreases side.len() - n,
        {
            let ghost before = places;
            match &side[n].key {
                Some(key) => {
                    let h: u64 = fnv_of(key.as_slice());
                    let mut here: Vec<usize> = match places.slots.remove(&h) {
                        Some(here) => here,
                        None => Vec::new(),
                    };
                    assert(here@ =~= with_hash(side@, h, n as nat)) by {
                        assert(before.slots@.contains_key(h) || !before.slots@.contains_key(h));
                    }
                    here.push(n);
                    let _ = places.slots.insert(h, here);
                    proof {
                        assert forall|g: u64|
                            #![trigger places.slots@.contains_key(g)]
                            if places.slots@.contains_key(g) {
                                places.slots@[g]@ == with_hash(side@, g, n as nat + 1)
                            } else {
                                with_hash(side@, g, n as nat + 1).len() == 0
                            } by {
                            assert(before.slots@.contains_key(g) || !before.slots@.contains_key(g));
                        }
                    }
                },
                None => {
                    assert forall|g: u64|
                        with_hash(side@, g, n as nat + 1) == with_hash(side@, g, n as nat) by {}
                },
            }
            n = n + 1;
        }
        places
    }

    fn find(&self, side: &Vec<Keyed>, key: &Vec<u8>) -> (found: Vec<usize>)
        requires
            self.of(side@, side@.len()),
        ensures
            found@ == with_key(side@, key@, side@.len()),
    {
        broadcast use vstd::std_specs::hash::group_hash_axioms;

        let h: u64 = fnv_of(key.as_slice());
        let mut found: Vec<usize> = Vec::new();
        let len: usize = side.len();
        proof {
            lemma_hash_finds_key(side@, key@, len as nat);
            lemma_hash_places(side@, h, len as nat);
            assert(self.slots@.contains_key(h) || !self.slots@.contains_key(h));
        }
        match self.slots.get(&h) {
            Some(here) => {
                let mut j: usize = 0;
                assert(here@.take(0) =~= Seq::<usize>::empty());
                while j < here.len()
                    invariant
                        j <= here.len(),
                        here@ == with_hash(side@, h, side@.len()),
                        forall|k: int| 0 <= k < here@.len() ==> (#[trigger] here@[k]) < side@.len(),
                        found@ == at_key(side@, here@.take(j as int), key@),
                    decreases here.len() - j,
                {
                    let place: usize = here[j];
                    assert(here@.take(j + 1).drop_last() =~= here@.take(j as int));
                    let same = match &side[place].key {
                        Some(other) => same_bytes(other, key),
                        None => false,
                    };
                    if same {
                        found.push(place);
                    }
                    j = j + 1;
                }
                assert(here@.take(j as int) =~= here@);
            },
            None => {
                assert(with_hash(side@, h, side@.len()) =~= Seq::<usize>::empty());
            },
        }
        found
    }
}

fn same_bytes(a: &Vec<u8>, b: &Vec<u8>) -> (same: bool)
    ensures
        same == (a@ == b@),
{
    proof {
        super::order::lemma_bytes_rank(a@, b@);
    }
    matches!(super::order::compare_bytes(a.as_slice(), b.as_slice()), super::order::Rank::Same)
}

/// How many foreign documents an equality join holds in memory beside its input:
/// what the pipeline's ceiling is checked against. The foreign side is looked at
/// once, not once per input.
pub fn lookup_held(input: &Vec<Keyed>, foreign: &Vec<Keyed>) -> (n: usize)
    ensures
        n == held(input@, foreign@, foreign@.len()),
{
    let places = Places::new(input);
    let mut n: usize = 0;
    let mut i: usize = 0;
    while i < foreign.len()
        invariant
            i <= foreign.len(),
            n <= i,
            places.of(input@, input@.len()),
            n == held(input@, foreign@, i as nat),
        decreases foreign.len() - i,
    {
        match &foreign[i].key {
            Some(key) => {
                let found = places.find(input, key);
                let len: usize = input.len();
                proof {
                    lemma_places(input@, key@, len as nat);
                    if found@.len() > 0 {
                        assert(key_of(input@[found@[0] as int]) == Some(key@));
                    }
                }
                if found.len() > 0 {
                    n = n + 1;
                }
            },
            None => {},
        }
        i = i + 1;
    }
    n
}

/// Join an input against a foreign collection on equal keys, in one pass over
/// each. The field is always an array, even where nothing joined: a field whose
/// type depends on whether anything matched forces every caller to handle two
/// shapes.
pub fn lookup(input: &mut Vec<Keyed>, foreign: &Vec<Keyed>, as_field: &str)
    ensures
        final(input)@.len() == old(input)@.len(),
        forall|i: int|
            0 <= i < old(input)@.len() ==> bson_members((#[trigger] final(input)@[i]).document@)
                == put(
                bson_members(old(input)@[i].document@),
                as_field@,
                BsonView::Array(joined(foreign@, key_of(old(input)@[i]))),
            ) && final(input)@[i].key == old(input)@[i].key,
{
    let places = Places::new(foreign);
    let ghost before = input@;
    let mut i: usize = 0;
    while i < input.len()
        invariant
            i <= input.len(),
            input@.len() == before.len(),
            places.of(foreign@, foreign@.len()),
            forall|k: int|
                0 <= k < i ==> bson_members((#[trigger] input@[k]).document@) == put(
                    bson_members(before[k].document@),
                    as_field@,
                    BsonView::Array(joined(foreign@, key_of(before[k]))),
                ) && input@[k].key == before[k].key,
            forall|k: int| i <= k < before.len() ==> #[trigger] input@[k] == before[k],
        decreases input.len() - i,
    {
        let mut matches: Vec<Bson> = Vec::new();
        match &input[i].key {
            Some(key) => {
                let found = places.find(foreign, key);
                let len: usize = foreign.len();
                proof {
                    lemma_places(foreign@, key@, len as nat);
                }
                let mut j: usize = 0;
                while j < found.len()
                    invariant
                        j <= found.len(),
                        matches@.len() == j,
                        found@ == with_key(foreign@, key@, foreign@.len()),
                        forall|k: int|
                            0 <= k < found@.len() ==> (#[trigger] found@[k]) < foreign@.len(),
                        forall|k: int|
                            0 <= k < j ==> (#[trigger] matches@[k])@ == joined(
                                foreign@,
                                Some(key@),
                            )[k],
                    decreases found.len() - j,
                {
                    let document = Bson::Document(copy_document(&foreign[found[j]].document));
                    proof {
                        bson_view(document);
                    }
                    matches.push(document);
                    j = j + 1;
                }
            },
            None => {},
        }
        let ghost expected = joined(foreign@, key_of(before[i as int]));
        assert(bson_items(matches@) =~= expected);
        let array = Bson::Array(matches);
        proof {
            bson_view(array);
        }
        put_bson(&mut input[i].document, as_field, array);
        i = i + 1;
    }
}

/// An equality join takes exactly the foreign documents with the input's key,
/// each once, in the order they are stored.
pub proof fn a_join_takes_exactly_the_equal_keys(foreign: Seq<Keyed>, key: Seq<u8>, n: nat)
    requires
        n <= foreign.len() <= usize::MAX,
    ensures
        forall|i: int|
            0 <= i < n ==> (key_of(#[trigger] foreign[i]) == Some(key) <==> with_key(
                foreign,
                key,
                n,
            ).contains(i as usize)),
        forall|a: int, b: int|
            0 <= a < b < with_key(foreign, key, n).len() ==> (#[trigger] with_key(
                foreign,
                key,
                n,
            )[a]) < (#[trigger] with_key(foreign, key, n)[b]) < n,
    decreases n,
{
    if n > 0 {
        let last = (n - 1) as nat;
        a_join_takes_exactly_the_equal_keys(foreign, key, last);
        lemma_places(foreign, key, last);
        let before = with_key(foreign, key, last);
        let after = with_key(foreign, key, n);
        assert forall|i: int| 0 <= i < n implies (key_of(#[trigger] foreign[i]) == Some(key)
            <==> after.contains(i as usize)) by {
            if i < last {
                if before.contains(i as usize) {
                    let j = choose|j: int| 0 <= j < before.len() && before[j] == i as usize;
                    assert(after[j] == i as usize);
                }
                if after.contains(i as usize) {
                    let j = choose|j: int| 0 <= j < after.len() && after[j] == i as usize;
                    assert(before[j] == i as usize);
                }
            } else if key_of(foreign[i]) == Some(key) {
                assert(after[after.len() - 1] == i as usize);
            } else if after.contains(i as usize) {
                let j = choose|j: int| 0 <= j < after.len() && after[j] == i as usize;
                assert(before[j] < last);
            }
        }
    }
}

/// Documents as values.
pub open spec fn as_values(docs: Seq<Document>) -> Seq<BsonView> {
    Seq::new(docs.len(), |i: int| BsonView::Document(bson_members(docs[i]@)))
}

/// Attach what a sub-pipeline gave for one input document. The joined documents
/// are held beside the input, so the total over every input document is what the
/// pipeline's ceiling bounds.
pub fn lookup_pipeline(doc: &mut Document, as_field: &str, joined: &Vec<Document>, held: &mut usize)
    requires
        *old(held) + joined@.len() <= usize::MAX,
    ensures
        *final(held) == *old(held) + joined@.len(),
        bson_members(final(doc)@) == put(
            bson_members(old(doc)@),
            as_field@,
            BsonView::Array(as_values(joined@)),
        ),
{
    *held = *held + joined.len();
    let mut values: Vec<Bson> = Vec::new();
    let mut i: usize = 0;
    while i < joined.len()
        invariant
            i <= joined.len(),
            values@.len() == i,
            forall|k: int| 0 <= k < i ==> (#[trigger] values@[k])@ == as_values(joined@)[k],
        decreases joined.len() - i,
    {
        let value = Bson::Document(copy_document(&joined[i]));
        proof {
            bson_view(value);
        }
        values.push(value);
        i = i + 1;
    }
    assert(bson_items(values@) =~= as_values(joined@));
    let array = Bson::Array(values);
    proof {
        bson_view(array);
    }
    put_bson(doc, as_field, array);
}

} // verus!
