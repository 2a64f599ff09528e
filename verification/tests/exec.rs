use kimmy_api::codec::to_text;
use kimmy_api::error::{CoreError, CoreErrorKind, ErrorCode, Retry, StorageError};
use kimmy_api::exec::join::{JoinAction, JoinEvent, PipelineJoin};
use kimmy_api::exec::modify::{
    candidates_for, find_and_modify, implied_equalities, modified, Candidates, Condition, Filter,
    FindAndModifySpec, IndexPlan, Modified, Refusals, ReturnDocument,
};
use kimmy_api::exec::order::{
    compare_bytes, sort_is_id_ascending, with_id_tiebreak, Rank, SortKey, TopK,
};
use kimmy_api::exec::pipeline::{
    aggregate, aggregate_with_limits, lookup, lookup_held, lookup_pipeline, parse_pipeline,
    source_within, Keyed,
};
use kimmy_api::exec::read::{
    count, counted, find, get_doc, get_doc_stamped, parse_id, start_count, DocId, FindParams,
    FindReader, QueryRead, DEFAULT_LIMIT, MAX_LIMIT, MAX_SORT_WINDOW,
};
use kimmy_api::exec::scan::{
    access_of, collect_matching, collect_matching_stamped_after, visit_matching, Access, Answered,
    Candidate, IndexRead, IndexScan, Order, Probe, QueryStats, Reader,
};
use kimmy_api::exec::schema::{
    authorize, collection, confirm_cap, confirmation_to_json, create_collection, create_index,
    document_id, drop_collection, drop_database, drop_index, dropped, index_to_json, list_collections,
    list_databases, list_indexes, now_millis, parse_filter, shadow_of, violations,
    with_confirmation, DdlConfirmation, Enforcement, Held, IndexFieldSpec, IndexMeta, IndexSpec,
    Listed, Violation,
};
use kimmy_api::exec::write::{
    delete, delete_by_id, deleted, deleted_by_id, explained_delete, explained_update, insert, insert_many, insert_many_failed,
    inserted, inserted_many, parse_if_stamp, parse_update, replace, replaced, update, updated,
    ModifyManyOutcome, ReplaceParams, WriteOutcome, WriteParams, WriteRefusals, WriteStep,
    MAX_BULK_INSERT,
};
use kimmy_api::json::{Bson, Document, Json, JsonNumber};

fn num(n: u64) -> Json {
    Json::Number(JsonNumber::PosInt(n))
}

fn text(s: &str) -> Json {
    Json::String(s.to_string())
}

fn object(members: Vec<(&str, Json)>) -> Json {
    Json::Object(members.into_iter().map(|(k, v)| (k.to_string(), v)).collect())
}

fn member<'a>(v: &'a Json, key: &str) -> Option<&'a Json> {
    match v {
        Json::Object(members) => members.iter().find(|(k, _)| k == key).map(|(_, v)| v),
        other => panic!("not an object: {other:?}"),
    }
}

fn items(v: &Json) -> &Vec<Json> {
    match v {
        Json::Array(items) => items,
        other => panic!("not an array: {other:?}"),
    }
}

/// Bytes that order as the numbers do.
fn encoded(n: i64) -> Vec<u8> {
    ((n as u64) ^ (1 << 63)).to_be_bytes().to_vec()
}

/// Bytes that order as the values do, with an absent one first.
fn sort_key(n: Option<i64>) -> Vec<u8> {
    match n {
        Some(n) => {
            let mut bytes = vec![1];
            bytes.extend(encoded(n));
            bytes
        }
        None => vec![0],
    }
}

fn candidate(id: i64, matches: bool) -> Candidate {
    Candidate {
        key: encoded(id),
        stamp: format!("s{id}"),
        matches,
        unsortable: None,
        sort_keys: vec![],
        cursor: Some(format!("c{id}")),
        page: vec![("_id".to_string(), Bson::Int64(id))],
    }
}

fn id_of(c: &Candidate) -> i64 {
    match &c.page[0].1 {
        Bson::Int64(id) => *id,
        other => panic!("{other:?}"),
    }
}

fn ids(matches: &[&Candidate]) -> Vec<i64> {
    matches.iter().map(|c| id_of(c)).collect()
}

fn params() -> FindParams {
    FindParams {
        filter: None,
        sort: None,
        projection: None,
        limit: None,
        skip: None,
        explain: false,
        cursor: None,
        stamps: false,
    }
}

fn read_as(order: Vec<SortKey>) -> QueryRead {
    QueryRead { order, filter: None, sort: None, projection: None }
}

fn unsorted() -> QueryRead {
    read_as(vec![])
}

fn ascending(path: &str) -> SortKey {
    SortKey { path: path.to_string(), descending: false }
}

fn descending(path: &str) -> SortKey {
    SortKey { path: path.to_string(), descending: true }
}

#[test]
fn ids_are_parsed_by_shape() {
    let oid = bson::oid::ObjectId::new();
    assert_eq!(parse_id(&oid.to_hex()).unwrap(), DocId::ObjectId(oid.bytes()));
    assert_eq!(parse_id("42").unwrap(), DocId::Int64(42));
    assert_eq!(parse_id("-7").unwrap(), DocId::Int64(-7));
    assert_eq!(parse_id("hello").unwrap(), DocId::String("hello".into()));
    // 24 characters but not hex: a string, not a failed ObjectId.
    assert_eq!(
        parse_id("zzzzzzzzzzzzzzzzzzzzzzzz").unwrap(),
        DocId::String("zzzzzzzzzzzzzzzzzzzzzzzz".into())
    );
}

#[test]
fn an_absent_filter_matches_everything() {
    assert_eq!(parse_filter(None).unwrap(), None);
}

#[test]
fn the_shadow_a_drop_strands_is_derived_to_the_id_the_catalogue_holds() {
    let (docs, shadow) = (1, 2);
    assert_eq!(shadow_of(false, docs, shadow), shadow, "a parent's drop strands its shadow");
    assert_eq!(shadow_of(true, shadow, 77), shadow, "a shadow named directly is itself");
    assert_ne!(shadow_of(false, docs, shadow), docs, "never the parent: it holds no graph");
}

fn stats(index: Option<&str>, probes: usize) -> QueryStats {
    QueryStats {
        index: index.map(str::to_string),
        fields_used: usize::from(index.is_some()),
        examined: 0,
        matched: 0,
        probes,
        index_entries: None,
        unkeyed: None,
        undecidable: None,
        id_lookup: false,
    }
}

#[test]
fn explain_names_the_strategy_by_its_shape() {
    let strategy = |s: QueryStats| member(&s.to_json(), "strategy").map(to_text);
    assert_eq!(strategy(stats(None, 0)).unwrap(), "\"collectionScan\"");
    assert_eq!(strategy(stats(Some("i"), 1)).unwrap(), "\"index\"");
    assert_eq!(strategy(stats(Some("i"), 2)).unwrap(), "\"indexUnion\"");
}

#[test]
fn a_primary_key_lookup_is_named_as_one_and_claims_no_index() {
    let one = QueryStats { probes: 1, id_lookup: true, ..stats(None, 0) };
    assert_eq!(member(&one.to_json(), "strategy"), Some(&text("idLookup")));
    let many = QueryStats { probes: 5, id_lookup: true, ..stats(None, 0) };
    assert_eq!(member(&many.to_json(), "strategy"), Some(&text("idLookup")));

    assert_eq!(member(&one.to_json(), "index"), Some(&Json::Null));
    assert_eq!(member(&one.to_json(), "indexFieldsUsed"), Some(&num(0)));
}

#[test]
fn explain_reports_a_probe_count_only_for_unions() {
    assert!(member(&stats(Some("i"), 1).to_json(), "probes").is_none());
    assert_eq!(member(&stats(Some("i"), 3).to_json(), "probes"), Some(&num(3)));
}

fn index_scan(ranges: usize, read: Option<IndexRead>, candidates: Vec<Candidate>) -> IndexScan {
    IndexScan { name: "n_1".to_string(), fields_used: 1, ranges, read, candidates }
}

fn read_entries(entries: usize) -> Option<IndexRead> {
    Some(IndexRead { entries, unkeyed: 0, undecidable: 0 })
}

#[test]
fn a_union_scans_every_probe_not_just_the_first() {
    // Ten documents, and `n in [2, 8]` through an index on `n`.
    let access = Access::Index {
        scan: index_scan(2, read_entries(2), vec![candidate(2, true), candidate(8, true)]),
        records: (0..10).map(|i| candidate(i, i == 2 || i == 8)).collect(),
    };
    let visit = collect_matching(&access, None);

    assert_eq!(visit.stats.probes, 2, "the union must be planned");
    let mut found = ids(&visit.matches);
    found.sort_unstable();
    assert_eq!(found, vec![2, 8], "every probe's matches must arrive, not just the first's");
}

#[test]
fn a_stale_both_bounds_plan_falls_back_rather_than_scanning_narrow() {
    // The plan no longer stood when the scan opened, so nothing came of it.
    let access = Access::Index {
        scan: index_scan(1, None, vec![]),
        records: vec![candidate(1, true), candidate(2, true)],
    };
    let visit = collect_matching(&access, None);

    let mut found = ids(&visit.matches);
    found.sort_unstable();
    assert_eq!(found, vec![1, 2], "the straddling document must not be lost to a stale plan");
    assert!(visit.stats.index.is_none(), "the fallback is a collection scan, and explain says so");
}

#[test]
fn the_write_planner_and_the_read_planner_choose_the_same_access_path() {
    let plan = |name: &str| Some(IndexPlan { name: name.to_string(), both_bounds: false });
    let keys = || Some(vec![encoded(3)]);
    let planned = [
        ("an _id filter must plan through the primary key", keys(), plan("n_1"), 1, "idLookup"),
        ("an _id filter needs no index", keys(), None, 1, "idLookup"),
        ("an indexed equality must plan through the index", None, plan("n_1"), 1, "index"),
        ("an indexed $in must plan through the index", None, plan("n_1"), 2, "indexUnion"),
        ("a filter on an unindexed field must plan a scan", None, None, 1, "collectionScan"),
    ];
    for (why, keys, plan, ranges, strategy) in planned {
        let records = (0..10).map(|i| candidate(i, i == 3)).collect::<Vec<_>>();
        let probe = |key: &Vec<u8>| Probe { key: key.clone(), found: Some(candidate(3, true)) };
        let probes = keys.as_ref().map(|keys| keys.iter().map(probe).collect::<Vec<_>>());
        let scan = plan.as_ref().map(|plan| IndexScan {
            name: plan.name.clone(),
            ..index_scan(ranges, read_entries(1), vec![candidate(3, true)])
        });
        let access = access_of(probes, scan, records);
        let visit = visit_matching(&access, Order::Any, None);
        assert_eq!(member(&visit.stats.to_json(), "strategy"), Some(&text(strategy)), "{why}");
        assert_eq!(ids(&visit.matches), vec![3], "{why}");
        match candidates_for(keys, plan) {
            Candidates::Keys(keys) => {
                assert_eq!(strategy, "idLookup", "{why}");
                assert_eq!(visit.stats.probes, keys.len(), "{why}");
            }
            Candidates::Index { name, .. } => assert_eq!(visit.stats.index, Some(name), "{why}"),
            Candidates::Scan => assert_eq!(strategy, "collectionScan", "{why}"),
        }
    }
}

/// Offer the candidates of an access path to a reader, in their turn, until it
/// wants no more; the ids it handed on, and how many it was offered.
fn stream(reader: &mut Reader, candidates: Vec<Candidate>) -> (Vec<i64>, usize) {
    let (mut found, mut offered) = (Vec::new(), 0);
    for c in candidates.into_iter().filter(|c| reader.wants(&c.key)).collect::<Vec<_>>() {
        offered += 1;
        let taken = reader.offer(&c);
        if taken.visit {
            found.push(id_of(&c));
        }
        if !taken.go_on {
            break;
        }
    }
    (found, offered)
}

#[test]
fn a_reader_hands_on_what_the_gathered_scan_does_and_stops() {
    let records = || (0..20).map(|i| candidate(i, i % 3 != 1)).collect::<Vec<_>>();
    for after in [None, Some(encoded(4)), Some(encoded(30))] {
        for stop_after in [None, Some(0), Some(1), Some(5), Some(50)] {
            let access = Access::Scan(records());
            let visit = collect_matching_stamped_after(&access, stop_after, after.as_ref());
            let mut reader = Reader::new(after.clone(), stop_after);
            let (found, offered) = stream(&mut reader, records());
            assert_eq!(found, ids(&visit.matches));
            assert!(offered <= visit.stats.examined.max(1), "a full read is offered no more");
            assert_eq!(reader.examined(), visit.stats.examined);
            assert_eq!(reader.matched(), found.len());
            assert_eq!(reader.finish(Answered::Scan), visit.stats);
        }
    }
}

#[test]
fn a_read_says_how_it_was_answered() {
    let keys = Reader::new(None, None).finish(Answered::Keys { probes: 3 });
    assert!(keys.id_lookup && keys.index.is_none());
    assert_eq!((keys.probes, keys.index_entries), (3, None));
    let read = IndexRead { entries: 7, unkeyed: 1, undecidable: 2 };
    let index = Reader::new(None, None).finish(Answered::Index {
        name: "n_1".to_string(),
        fields_used: 2,
        ranges: 4,
        read,
    });
    assert_eq!(index.index, Some("n_1".to_string()));
    assert_eq!((index.fields_used, index.probes), (2, 4));
    assert_eq!((index.index_entries, index.unkeyed, index.undecidable), (Some(7), Some(1), Some(2)));
    assert!(!index.id_lookup);
}

#[test]
fn a_find_read_candidate_by_candidate_answers_as_a_gathered_one() {
    let keyed = |i: i64| Candidate {
        sort_keys: vec![sort_key(fields_of(i).0), encoded(i)],
        ..candidate(i, i % 4 != 0)
    };
    let gathered = || Access::Scan((0..60).map(keyed).collect());
    let asked = |limit: usize, skip: usize| FindParams {
        limit: Some(limit),
        skip: Some(skip),
        explain: true,
        stamps: true,
        ..params()
    };
    for (limit, skip) in [(0, 0), (1, 0), (7, 0), (5, 9), (100, 0), (4, 100)] {
        for sort in [vec![], vec![ascending("_id")], vec![ascending("a")]] {
            let sorted = !sort.is_empty() && !sort_is_id_ascending(&sort);
            let order = || sort.iter().map(|k| SortKey { path: k.path.clone(), ..*k }).collect();
            let mut find_reader: FindReader<Candidate> =
                FindReader::start(asked(limit, skip), read_as(order())).unwrap();
            assert_eq!(find_reader.order().len(), if sorted { 2 } else { 0 });
            let mut offered = 0;
            for c in (0..60).map(keyed) {
                assert!(find_reader.takes(&c) && find_reader.wants(&c.key));
                offered += 1;
                if !find_reader.offer(c) {
                    break;
                }
            }
            if sorted {
                assert_eq!(offered, 60, "a sort has to see every match");
            } else if skip + limit < 45 {
                assert!(offered < 60, "a full page ends the read");
            }
            assert_eq!(
                find_reader.finish(Answered::Scan).unwrap(),
                find(asked(limit, skip), read_as(order()), &gathered()).unwrap()
            );
        }
    }
}

#[test]
fn a_find_that_is_refused_reads_nothing() {
    let refused = FindReader::<Candidate>::start(
        FindParams { skip: Some(1), cursor: Some(Ok(encoded(1))), ..params() },
        unsorted(),
    );
    assert!(refused.err().unwrap().message.starts_with("`cursor` and `skip`"));
    let mut sorted: FindReader<Candidate> =
        FindReader::start(params(), read_as(vec![ascending("a")])).unwrap();
    assert!(!sorted.takes(&candidate(1, true)), "a candidate without its sort keys");
    let place = |why: Option<&str>| Candidate {
        unsortable: why.map(str::to_string),
        sort_keys: vec![vec![1], vec![2]],
        ..candidate(1, true)
    };
    for why in [None, Some("first"), Some("second")] {
        assert!(sorted.offer(place(why)));
    }
    assert_eq!(sorted.finish(Answered::Scan).unwrap_err().message, "first");
    let bounds: FindReader<Candidate> = FindReader::start(
        FindParams { limit: Some(3), cursor: Some(Ok(encoded(9))), ..params() },
        unsorted(),
    )
    .unwrap();
    assert_eq!(bounds.bounds(), (Some(&encoded(9)), Some(3)));
    assert!(bounds.wants(&encoded(10)) && !bounds.wants(&encoded(9)));
}

#[test]
fn a_count_is_read_candidate_by_candidate() {
    let mut reader = start_count(&params(), None).unwrap();
    stream(&mut reader, (0..10).map(|i| candidate(i, i > 3)).collect());
    let stats = reader.finish(Answered::Scan);
    assert_eq!(to_text(&counted(false, &stats)), "{\"count\":6}");
    assert!(member(&counted(true, &stats), "explain").is_some());
    assert!(start_count(&FindParams { filter: Some(num(1)), ..params() }, None).is_err());
}

#[test]
fn a_source_is_refused_once_it_is_over_the_ceiling() {
    assert!(source_within(3, true, 3).is_ok());
    assert_eq!(
        source_within(4, true, 3).unwrap_err().message,
        "the leading $match admits more than 3 documents, the pipeline limit. Narrow it with a more selective $match"
    );
    assert!(source_within(4, false, 3).unwrap_err().message.starts_with("the source collection"));
}

/// `a` and `b` of the document with this id, some without `a`: the ties and gaps
/// a sort has to get right.
fn fields_of(i: i64) -> (Option<i64>, i64) {
    (if i % 13 == 0 { None } else { Some(i % 10) }, i % 3)
}

#[test]
fn a_count_visits_every_match_and_keeps_none_of_them() {
    let access = Access::Scan((0..250).map(|i| candidate(i, fields_of(i).1 == 1)).collect());
    let visit = visit_matching(&access, Order::Any, None);
    for c in &visit.matches {
        assert_eq!(fields_of(id_of(c)).1, 1, "only matches reach the visitor");
    }

    let expected = (0..250i64).filter(|i| i % 3 == 1).count();
    assert_eq!(visit.matches.len(), expected);
    assert_eq!(visit.stats.matched, expected, "the count is the stats, not a vector's length");
    assert_eq!(visit.stats.examined, 250, "a scan examines everything");
    assert_eq!(
        to_text(&count(&params(), None, &access).unwrap()),
        format!("{{\"count\":{expected}}}")
    );
}

#[test]
fn a_bounded_sort_window_gives_the_page_the_full_sort_gave() {
    let mut scrambled: Vec<i64> = (0..300).collect();
    let mut seed = 0x2545_F491_4F6C_DD1Du64;
    for i in (1..scrambled.len()).rev() {
        seed ^= seed << 13;
        seed ^= seed >> 7;
        seed ^= seed << 17;
        scrambled.swap(i, (seed % (i as u64 + 1)) as usize);
    }

    let sorts = [
        vec![ascending("a")],
        vec![descending("a")],
        vec![ascending("a"), descending("b")],
        vec![ascending("b")],
        vec![descending("_id")],
        vec![ascending("missing")],
    ];
    let windows = [(0usize, 10usize), (0, 1), (7, 5), (95, 10), (290, 20), (300, 5), (0, 300)];
    let field = |i: i64, path: &str| match path {
        "a" => fields_of(i).0,
        "b" => Some(fields_of(i).1),
        "_id" => Some(i),
        _ => None,
    };

    for sort in &sorts {
        let mut reference: Vec<i64> = (0..300).collect();
        reference.sort_by(|x, y| {
            for key in sort {
                let (x, y) = if key.descending { (y, x) } else { (x, y) };
                let by_key = field(*x, &key.path).cmp(&field(*y, &key.path));
                if by_key != std::cmp::Ordering::Equal {
                    return by_key;
                }
            }
            std::cmp::Ordering::Equal
        });

        let order = with_id_tiebreak(sort);
        let candidates: Vec<Candidate> = scrambled
            .iter()
            .map(|i| Candidate {
                sort_keys: order.iter().map(|key| sort_key(field(*i, &key.path))).collect(),
                ..candidate(*i, true)
            })
            .collect();

        for &(skip, limit) in &windows {
            let expected: Vec<i64> = reference.iter().skip(skip).take(limit).copied().collect();
            let mut top = TopK::new(skip + limit);
            for c in &candidates {
                top.offer(&order, c);
            }
            let got: Vec<i64> = ids(&top.into_sorted()).into_iter().skip(skip).collect();
            assert_eq!(got, expected, "sort {sort:?}, skip {skip}, limit {limit}");
        }
    }
}

/// `count` documents `{_id: i, n: i % 5}`, matching where `admits` does.
fn source(count: i64, admits: impl Fn(i64) -> bool) -> Access {
    Access::Scan((0..count).map(|i| candidate(i, admits(i % 5))).collect())
}

#[test]
fn a_leading_match_is_held_to_the_ceiling_not_the_collection() {
    let err = aggregate_with_limits(&source(30, |_| true), false, 10)
        .expect_err("the whole collection is over the ceiling");
    assert!(err.message.contains("source collection"), "{err:?}");

    let narrowed = source(30, |n| n == 3);
    let out = aggregate_with_limits(&narrowed, true, 10).unwrap();
    assert_eq!(out.len(), 6);

    let err = aggregate_with_limits(&source(30, |n| n >= 0), true, 10)
        .expect_err("the match admits thirty");
    assert!(err.message.contains("leading $match"), "{err:?}");
    assert_eq!(
        err.message,
        "the leading $match admits more than 10 documents, the pipeline limit. Narrow it with a \
         more selective $match"
    );
}

#[test]
fn a_source_at_the_ceiling_is_not_over_it() {
    assert_eq!(aggregate_with_limits(&source(10, |_| true), false, 10).unwrap().len(), 10);
    assert!(aggregate_with_limits(&source(11, |_| true), false, 10).is_err());
    assert_eq!(aggregate_with_limits(&source(0, |_| true), false, 0).unwrap().len(), 0);
}

#[test]
fn an_indexed_and_an_unindexed_source_give_the_same_answer() {
    let admits = |i: i64| i % 5 == 2;
    let all = || (0..40).map(|i| candidate(i, admits(i))).collect::<Vec<_>>();
    let indexed = Access::Index {
        scan: index_scan(
            1,
            read_entries(8),
            (0..40).filter(|i| admits(*i)).map(|i| candidate(i, true)).collect(),
        ),
        records: all(),
    };
    let plain = Access::Scan(all());
    let a = aggregate_with_limits(&indexed, true, 100).unwrap();
    let b = aggregate_with_limits(&plain, true, 100).unwrap();
    assert_eq!(ids(&a), ids(&b));
    assert!(!a.is_empty(), "the pipeline must find something");
}

#[test]
fn the_tiebreak_is_only_added_when_id_is_not_already_a_key() {
    let by_a = vec![ascending("a")];
    let order = with_id_tiebreak(&by_a);
    assert_eq!(order.len(), 2);
    assert_eq!(order[1].path, "_id");
    assert!(!order[1].descending);

    let by_id_desc = vec![descending("_id")];
    assert_eq!(with_id_tiebreak(&by_id_desc), by_id_desc);
    let mixed = vec![ascending("a"), descending("_id")];
    assert_eq!(with_id_tiebreak(&mixed), mixed);
}

#[test]
fn a_window_of_zero_holds_nothing() {
    let order = with_id_tiebreak(&vec![]);
    let all: Vec<Candidate> = (0..3)
        .map(|i| Candidate { sort_keys: vec![sort_key(Some(i))], ..candidate(i, true) })
        .collect();
    let mut top = TopK::new(0);
    for c in &all {
        top.offer(&order, c);
    }
    assert!(top.into_sorted().is_empty());
}

#[test]
fn a_stop_after_of_zero_visits_nothing() {
    let access = Access::Scan((0..3).map(|i| candidate(i, true)).collect());
    let visit = visit_matching(&access, Order::Any, Some(0));
    assert_eq!(visit.matches.len(), 0, "a stop_after of zero must visit nothing");
    assert_eq!(visit.stats.matched, 0, "{:?}", visit.stats.matched);
}

#[test]
fn a_read_resumes_strictly_after_its_bound() {
    let access = Access::Scan((0..10).map(|i| candidate(i, i % 2 == 0)).collect());
    let first = collect_matching_stamped_after(&access, Some(2), None);
    assert_eq!(ids(&first.matches), vec![0, 2]);
    assert_eq!(first.stats.examined, 3, "the scan stops with its last match");
    let rest = collect_matching_stamped_after(&access, None, Some(&encoded(2)));
    assert_eq!(ids(&rest.matches), vec![4, 6, 8]);

    let keys = Access::Keys(
        (0..4)
            .map(|i| Probe { key: encoded(i), found: (i != 2).then_some(candidate(i, true)) })
            .collect(),
    );
    let visit = collect_matching_stamped_after(&keys, None, Some(&encoded(0)));
    assert_eq!(ids(&visit.matches), vec![1, 3], "a key naming no document is an ordinary miss");
    assert_eq!(visit.stats.probes, 4);
    assert!(visit.stats.id_lookup);
}

/// Every match of a read, a page at a time, each page from the last key of the
/// one before it.
fn walk(access: &Access, page: usize) -> Vec<i64> {
    let mut found = Vec::new();
    let mut bound: Option<Vec<u8>> = None;
    loop {
        let visit = collect_matching_stamped_after(access, Some(page), bound.as_ref());
        found.extend(ids(&visit.matches));
        if visit.matches.len() < page {
            return found;
        }
        bound = visit.matches.last().map(|c| c.key.clone());
    }
}

#[test]
fn following_cursors_returns_every_match_once() {
    let records = || (0..20).map(|i| candidate(i, i % 3 != 1)).collect::<Vec<_>>();
    let matching: Vec<i64> = (0..20).filter(|i| i % 3 != 1).collect();
    let keys = || {
        let probe = |i| Probe { key: encoded(i), found: (i != 5).then_some(candidate(i, i % 3 != 1)) };
        (0..20).map(probe).collect::<Vec<_>>()
    };
    let stale =
        || Access::Index { scan: index_scan(1, None, vec![]), records: records() };
    for page in 1..=21 {
        assert_eq!(walk(&Access::Scan(records()), page), matching, "{page}");
        assert_eq!(walk(&stale(), page), matching, "{page}");
        let found: Vec<i64> = matching.iter().copied().filter(|i| *i != 5).collect();
        assert_eq!(walk(&Access::Keys(keys()), page), found, "{page}");
    }
}

#[test]
fn repeating_a_find_with_its_cursor_returns_every_match_once() {
    let access = Access::Scan((0..12).map(|i| candidate(i, i % 4 != 0)).collect());
    for limit in [1, 2, 3, 4, 9, 10] {
        let mut found = Vec::new();
        let mut cursor: Option<i64> = None;
        let mut pages = 0;
        loop {
            let params = FindParams {
                limit: Some(limit),
                cursor: cursor.map(|id| Ok(encoded(id))),
                ..params()
            };
            let page = find(params, unsorted(), &access).unwrap();
            found.extend(items(member(&page, "documents").unwrap()).iter().map(to_text));
            pages += 1;
            match member(&page, "nextCursor") {
                Some(Json::String(token)) => cursor = Some(token[1..].parse().unwrap()),
                None => break,
                other => panic!("{other:?}"),
            }
        }
        let matching: Vec<String> =
            (0..12).filter(|i| i % 4 != 0).map(|i| format!("{{\"_id\":{i}}}")).collect();
        assert_eq!(found, matching, "{limit}");
        assert_eq!(pages, 9 / limit + 1, "a full last page is followed by an empty one");
    }
}

#[test]
fn bytes_order_by_the_first_that_differs_and_prefixes_first() {
    assert_eq!(compare_bytes(&[1, 2], &[1, 3]), Rank::First);
    assert_eq!(compare_bytes(&[2], &[1, 9]), Rank::Second);
    assert_eq!(compare_bytes(&[1], &[1, 0]), Rank::First);
    assert_eq!(compare_bytes(&[1, 0], &[1, 0]), Rank::Same);
    assert!(sort_is_id_ascending(&vec![ascending("_id")]));
    assert!(!sort_is_id_ascending(&vec![descending("_id")]));
    assert!(!sort_is_id_ascending(&vec![]));
}

#[test]
fn a_page_holds_its_limit_and_says_where_to_go_on() {
    let access = Access::Scan((0..10).map(|i| candidate(i, true)).collect());
    let page = find(FindParams { limit: Some(2), stamps: true, ..params() }, unsorted(), &access).unwrap();
    assert_eq!(items(member(&page, "documents").unwrap()).len(), 2);
    assert_eq!(
        items(member(&page, "documents").unwrap())[1],
        object(vec![("_id", num(1))])
    );
    assert_eq!(items(member(&page, "stamps").unwrap()), &vec![text("s0"), text("s1")]);
    assert_eq!(member(&page, "nextCursor"), Some(&text("c1")));

    let resumed = find(
        FindParams { limit: Some(20), cursor: Some(Ok(encoded(1))), ..params() },
        unsorted(),
        &access,
    )
    .unwrap();
    assert_eq!(items(member(&resumed, "documents").unwrap()).len(), 8);
    assert_eq!(member(&resumed, "nextCursor"), None, "a page that is not full is the last");
}

#[test]
fn a_find_without_a_limit_takes_the_default_page() {
    let access = Access::Scan((0..150).map(|i| candidate(i, true)).collect());
    let page = find(params(), unsorted(), &access).unwrap();
    assert_eq!(items(member(&page, "documents").unwrap()).len(), DEFAULT_LIMIT);
    let all = find(FindParams { limit: Some(usize::MAX), ..params() }, unsorted(), &access).unwrap();
    assert_eq!(items(member(&all, "documents").unwrap()).len(), 150);
    assert_eq!(MAX_LIMIT, 10_000);
}

#[test]
fn a_sorted_read_is_bounded_and_does_not_resume() {
    let access = Access::Scan(
        (0..10)
            .map(|i| Candidate {
                sort_keys: vec![sort_key(Some(i % 3)), sort_key(Some(i))],
                ..candidate(i, true)
            })
            .collect(),
    );
    let by_a = || vec![descending("a")];
    let page = find(
        FindParams { skip: Some(1), limit: Some(3), ..params() },
        read_as(by_a()),
        &access,
    )
    .unwrap();
    assert_eq!(
        items(member(&page, "documents").unwrap()),
        &vec![
            object(vec![("_id", num(5))]),
            object(vec![("_id", num(8))]),
            object(vec![("_id", num(1))]),
        ]
    );

    let e = find(
        FindParams { skip: Some(MAX_SORT_WINDOW), limit: Some(1), ..params() },
        read_as(by_a()),
        &access,
    )
    .unwrap_err();
    assert_eq!((e.status, e.code), (400, ErrorCode::BadRequest));
    let resumed = FindParams { cursor: Some(Ok(encoded(1))), ..params() };
    let e = find(resumed, read_as(by_a()), &access).unwrap_err();
    assert_eq!(e.status, 400, "a cursor resumes an order by _id alone");
    let e = find(
        FindParams {
            cursor: Some(Err(CoreError {
                kind: CoreErrorKind::MalformedCursor,
                text: "malformed cursor".to_string(),
            })),
            ..params()
        },
        unsorted(),
        &access,
    )
    .unwrap_err();
    assert_eq!(e.message, "malformed cursor");
}

#[test]
fn a_document_the_sort_has_no_place_for_refuses_the_read() {
    let access = Access::Scan(vec![Candidate {
        sort_keys: vec![sort_key(None), sort_key(Some(1))],
        unsortable: Some("a Decimal128 cannot be sorted".to_string()),
        ..candidate(1, true)
    }]);
    let e = find(params(), read_as(vec![ascending("a")]), &access).unwrap_err();
    assert_eq!(e.status, 400);
    assert!(e.message.contains("a Decimal128 cannot be sorted"), "{}", e.message);
}

#[test]
fn a_query_is_refused_by_the_first_of_its_documents_that_is() {
    let nothing = Access::Scan(vec![]);
    let documents = || FindParams {
        filter: Some(object(vec![])),
        sort: Some(object(vec![])),
        projection: Some(object(vec![])),
        skip: Some(1),
        cursor: Some(Ok(vec![])),
        ..params()
    };
    let all = || QueryRead {
        order: vec![],
        filter: refusal("filter"),
        sort: refusal("sort"),
        projection: refusal("projection"),
    };
    let message = |params: FindParams, read: QueryRead| {
        find(params, read, &nothing).unwrap_err().message
    };
    assert_eq!(message(documents(), all()), "filter");
    assert_eq!(message(documents(), QueryRead { filter: None, ..all() }), "sort");
    assert_eq!(message(documents(), QueryRead { filter: None, sort: None, ..all() }), "projection");
    assert!(message(documents(), unsorted()).starts_with("`cursor` and `skip`"));
    assert_eq!(
        message(FindParams { filter: Some(num(1)), ..documents() }, all()),
        "expected a JSON object"
    );
    assert_eq!(
        count(&documents(), refusal("filter"), &nothing).unwrap_err().message,
        "filter"
    );
    assert!(count(&documents(), None, &nothing).is_ok(), "a count has no page to refuse");
}

#[test]
fn a_missing_document_is_named_by_the_id_that_was_asked_for() {
    let doc: Document = vec![("_id".to_string(), Bson::Int32(1))];
    let (stamp, body) = get_doc_stamped("1", Some(("s1".to_string(), &doc))).unwrap();
    assert_eq!((stamp.as_str(), to_text(&body).as_str()), ("s1", "{\"_id\":1}"));
    assert_eq!(to_text(&get_doc("1", Some(("s1".to_string(), &doc))).unwrap()), "{\"_id\":1}");
    let e = get_doc("9", None).unwrap_err();
    assert_eq!((e.status, e.message.as_str()), (404, "no document with _id 9"));
}

#[test]
fn a_batch_is_converted_whole_or_refused_by_position() {
    let doc = |n: u64| object(vec![("n", num(n))]);
    assert_eq!(insert_many(&vec![doc(1), doc(2)]).unwrap().len(), 2);
    let e = insert_many(&vec![doc(1), num(2)]).unwrap_err();
    assert_eq!(e.message, "document at index 1: expected a JSON object");
    assert_eq!(e.code, ErrorCode::BadRequest);
    let many: Vec<Json> = (0..=MAX_BULK_INSERT as u64).map(doc).collect();
    assert_eq!(
        insert_many(&many).unwrap_err().message,
        "a bulk insert takes at most 1000 documents, got 1001"
    );
    let e = insert_many_failed(Some(4), StorageError::Other);
    assert_eq!(e.message, "document at index 4: storage failure");
    assert_eq!(insert_many_failed(None, StorageError::Other).message, "storage failure");
    assert!(insert(&num(1)).is_err());
    assert_eq!(insert(&doc(1)).unwrap(), vec![("n".to_string(), Bson::Int32(1))]);
}

#[test]
fn writes_answer_with_ids_counts_and_stamps() {
    assert_eq!(
        to_text(&inserted(&Bson::Int64(7), "s7")),
        "{\"insertedId\":7,\"stamp\":\"s7\"}"
    );
    let stored =
        vec![(Bson::Int64(1), "s1".to_string()), (Bson::Int64(2), "s2".to_string())];
    assert_eq!(
        to_text(&inserted_many(&stored)),
        "{\"inserted\":2,\"insertedIds\":[1,2],\"stamps\":[\"s1\",\"s2\"]}"
    );
    let outcome = WriteOutcome {
        matched: true,
        modified: false,
        upserted: false,
        stamp: Some("s3".to_string()),
    };
    assert_eq!(
        to_text(&replaced(&outcome)),
        "{\"matched\":1,\"modified\":0,\"upserted\":false,\"stamp\":\"s3\"}"
    );
    assert_eq!(to_text(&deleted_by_id(None)), "{\"deleted\":0}");
    assert_eq!(
        to_text(&deleted_by_id(Some(&"s4".to_string()))),
        "{\"deleted\":1,\"stamp\":\"s4\"}"
    );
    let many = |modified: u64| ModifyManyOutcome {
        matched: modified,
        modified,
        commits: 1,
        stamp: Some("s5".to_string()),
    };
    assert_eq!(
        to_text(&updated(false, &many(1))),
        "{\"matched\":1,\"modified\":1,\"commits\":1,\"stamp\":\"s5\"}"
    );
    assert_eq!(
        to_text(&updated(true, &many(3))),
        "{\"matched\":3,\"modified\":3,\"commits\":1}",
        "several documents have no one version"
    );
    assert!(to_text(&deleted(false, &many(1))).contains("\"stamp\":\"s5\""));
}

fn write_params(multi: bool, explain: bool) -> WriteParams {
    WriteParams { filter: None, multi, explain, if_stamp: None, array_filters: vec![] }
}

fn writes() -> WriteRefusals {
    WriteRefusals { filter: None, update: None }
}

fn malformed() -> CoreError {
    CoreError { kind: CoreErrorKind::MalformedStamp, text: "malformed stamp".to_string() }
}

#[test]
fn a_condition_is_decoded_or_refused() {
    assert_eq!(parse_if_stamp(None).unwrap(), None);
    assert_eq!(parse_if_stamp(Some(Ok("s".to_string()))).unwrap().as_deref(), Some("s"));
    assert_eq!(parse_if_stamp(Some(Err(malformed()))).unwrap_err().message, "malformed stamp");

    let write = |multi: bool, explain: bool| WriteParams {
        if_stamp: Some(Ok("s".to_string())),
        ..write_params(multi, explain)
    };
    assert_eq!(write(false, false).expected().unwrap().as_deref(), Some("s"));
    assert_eq!(write(true, false).expected().unwrap_err().status, 400);
    assert_eq!(write(false, true).expected().unwrap_err().status, 400);
}

#[test]
fn a_replace_asks_for_its_document_under_its_id() {
    let body = object(vec![("n", num(1))]);
    let request = replace(
        "42",
        &body,
        ReplaceParams { upsert: true, if_stamp: Some(Ok("s".to_string())) },
    )
    .unwrap();
    assert_eq!(request.id, DocId::Int64(42));
    assert!(request.upsert);
    assert_eq!(request.expected.as_deref(), Some("s"));
    assert_eq!(request.document, vec![("n".to_string(), Bson::Int32(1))]);

    let e = replace("42", &num(1), ReplaceParams { upsert: false, if_stamp: Some(Err(malformed())) })
        .unwrap_err();
    assert_eq!(e.message, "expected a JSON object", "the body comes before the stamp");
    let e = replace("42", &body, ReplaceParams { upsert: false, if_stamp: Some(Err(malformed())) })
        .unwrap_err();
    assert_eq!(e.message, "malformed stamp");

    let (id, expected) = delete_by_id("x", None).unwrap();
    assert_eq!((id, expected), (DocId::String("x".to_string()), None));
    assert!(delete_by_id("x", Some(Err(malformed()))).is_err());
}

#[test]
fn a_filtered_write_plans_or_writes_but_never_both() {
    let access = Access::Scan((0..5).map(|i| candidate(i, i > 1)).collect());
    let set = object(vec![("$set", object(vec![("n", num(1))]))]);
    match update(&set, write_params(false, true), writes()).unwrap() {
        WriteStep::Explain { filter, stop_after } => {
            assert_eq!((filter, stop_after), (None, Some(1)));
            let visit = visit_matching(&access, Order::Any, stop_after);
            let body = explained_update(&visit.stats);
            assert_eq!(member(&body, "modified"), Some(&num(0)));
            let explain = member(&body, "explain").unwrap();
            assert_eq!(member(explain, "documentsMatched"), Some(&num(1)), "one write, one match");
        }
        WriteStep::Write { .. } => panic!("an explained write writes nothing"),
    }
    match update(&set, write_params(true, false), writes()).unwrap() {
        WriteStep::Write { filter, change, expected, stop_after } => {
            assert_eq!((filter, expected, stop_after), (None, None, None));
            assert_eq!(change.unwrap().0.len(), 1);
        }
        other => panic!("{other:?}"),
    }
    assert!(matches!(
        delete(write_params(false, false), writes()).unwrap(),
        WriteStep::Write { change: None, expected: None, stop_after: Some(1), .. }
    ));
    assert!(matches!(
        delete(write_params(true, true), writes()).unwrap(),
        WriteStep::Explain { filter: None, stop_after: None }
    ));
    let visit = visit_matching(&access, Order::Any, None);
    let body = explained_delete(&visit.stats);
    assert_eq!(member(&body, "deleted"), Some(&num(0)));
    assert_eq!(
        member(member(&body, "explain").unwrap(), "documentsMatched"),
        Some(&num(3)),
        "a write to many explains them all"
    );
}

#[test]
fn a_filtered_write_is_refused_by_the_first_part_that_is() {
    let set = object(vec![("$set", object(vec![]))]);
    let every = || WriteParams {
        filter: Some(object(vec![])),
        if_stamp: Some(Ok("s".to_string())),
        ..write_params(true, false)
    };
    let all = || WriteRefusals { filter: refusal("filter"), update: refusal("update") };
    let message = |update_json: &Json, params: WriteParams, refused: WriteRefusals| {
        update(update_json, params, refused).unwrap_err().message
    };
    assert_eq!(message(&set, every(), all()), "filter");
    assert_eq!(message(&set, every(), WriteRefusals { filter: None, ..all() }), "update");
    assert_eq!(
        message(&num(1), every(), WriteRefusals { filter: None, ..all() }),
        "expected a JSON object"
    );
    assert!(message(&set, every(), writes()).contains("`multi: true`"));
    assert_eq!(delete(every(), all()).unwrap_err().message, "filter");
    assert!(delete(every(), writes()).unwrap_err().message.contains("`multi: true`"));
}

#[test]
fn an_update_is_read_with_its_array_filters() {
    let body = object(vec![("$set", object(vec![("n", num(1))]))]);
    let (doc, filters) = parse_update(&body, &vec![object(vec![("e", num(2))])]).unwrap();
    assert_eq!(doc.len(), 1);
    assert_eq!(filters.len(), 1);
    assert!(parse_update(&body, &vec![num(2)]).is_err());
    assert!(parse_update(&num(1), &vec![]).is_err());
}

fn modify_spec() -> FindAndModifySpec {
    FindAndModifySpec {
        filter: Some(object(vec![("n", num(1))])),
        sort: None,
        update: Some(object(vec![("$set", object(vec![("n", num(2))]))])),
        remove: false,
        upsert: false,
        return_document: ReturnDocument::default(),
        projection: None,
        if_stamp: None,
        array_filters: vec![],
    }
}

fn removal() -> FindAndModifySpec {
    FindAndModifySpec { update: None, remove: true, ..modify_spec() }
}

fn nothing_refused() -> Refusals {
    Refusals { filter: None, sort: None, projection: None, update: None, upsert: None }
}

fn refusal(text: &str) -> Option<CoreError> {
    Some(CoreError { kind: CoreErrorKind::InvalidQuery, text: text.to_string() })
}

#[test]
fn find_and_modify_does_one_thing() {
    assert_eq!(ReturnDocument::default(), ReturnDocument::Before);
    let plan = find_and_modify(modify_spec(), nothing_refused()).unwrap();
    assert_eq!(plan.filter.unwrap(), vec![("n".to_string(), Bson::Int32(1))]);
    assert_eq!(plan.update.unwrap().0.len(), 1);
    assert!(find_and_modify(removal(), nothing_refused()).unwrap().update.is_none());

    let message =
        |spec: FindAndModifySpec| find_and_modify(spec, nothing_refused()).unwrap_err().message;
    assert_eq!(
        message(FindAndModifySpec { remove: true, ..modify_spec() }),
        "find_and_modify takes either `update` or `remove: true`, not both"
    );
    assert_eq!(
        message(FindAndModifySpec { update: None, ..modify_spec() }),
        "find_and_modify needs an `update`, or `remove: true`"
    );
    assert_eq!(
        message(FindAndModifySpec { upsert: true, ..removal() }),
        "`remove` cannot be combined with `upsert`"
    );
    assert_eq!(
        message(FindAndModifySpec { return_document: ReturnDocument::After, ..removal() }),
        "`remove` has no document after it; use returnDocument \"before\""
    );
}

#[test]
fn find_and_modify_is_refused_by_the_first_part_that_is() {
    let message = |spec: FindAndModifySpec, refused: Refusals| {
        find_and_modify(spec, refused).unwrap_err().message
    };
    let all = || Refusals {
        filter: refusal("filter"),
        sort: refusal("sort"),
        projection: refusal("projection"),
        update: refusal("update"),
        upsert: refusal("upsert"),
    };
    let every = || FindAndModifySpec {
        sort: Some(object(vec![])),
        projection: Some(object(vec![])),
        upsert: true,
        if_stamp: Some(Err(malformed())),
        ..modify_spec()
    };
    assert_eq!(message(every(), all()), "filter");
    assert_eq!(message(every(), Refusals { filter: None, ..all() }), "sort");
    assert_eq!(message(every(), Refusals { filter: None, sort: None, ..all() }), "projection");
    assert_eq!(
        message(every(), Refusals { update: refusal("update"), ..nothing_refused() }),
        "update"
    );
    assert_eq!(
        message(every(), Refusals { upsert: refusal("upsert"), ..nothing_refused() }),
        "upsert"
    );
    assert_eq!(message(every(), nothing_refused()), "malformed stamp");
    assert_eq!(
        message(
            FindAndModifySpec { if_stamp: Some(Ok("s".to_string())), ..every() },
            nothing_refused()
        ),
        "`if_stamp` cannot be combined with `upsert`"
    );
    assert_eq!(
        message(FindAndModifySpec { filter: Some(num(1)), ..every() }, all()),
        "expected a JSON object"
    );
    // What was not asked for is not refused.
    let plan = find_and_modify(
        FindAndModifySpec { if_stamp: Some(Ok("s".to_string())), ..modify_spec() },
        Refusals { sort: refusal("sort"), upsert: refusal("upsert"), ..nothing_refused() },
    )
    .unwrap();
    assert_eq!(plan.expected.as_deref(), Some("s"));
}

#[test]
fn a_modified_document_comes_back_as_it_was_or_as_it_is() {
    let image = |n: i32| Some(vec![("n".to_string(), Bson::Int32(n))]);
    let outcome = Modified {
        matched: true,
        before: image(1),
        after: image(2),
        upserted: None,
        stamp: Some("s".to_string()),
    };
    assert!(to_text(&modified(ReturnDocument::Before, &outcome)).contains("{\"n\":1}"));
    assert!(to_text(&modified(ReturnDocument::After, &outcome)).contains("{\"n\":2}"));
}

#[test]
fn an_upsert_is_seeded_with_what_the_filter_pins() {
    let filter = Filter::And(vec![
        Filter::Field {
            path: "a".to_string(),
            conditions: vec![Condition::Eq(Bson::Int32(1)), Condition::Other],
        },
        Filter::Other,
        Filter::And(vec![Filter::Field {
            path: "b".to_string(),
            conditions: vec![Condition::Eq(Bson::Int32(2))],
        }]),
    ]);
    let mut seed: Vec<(String, &Bson)> = vec![];
    implied_equalities(&filter, &mut seed);
    assert_eq!(
        seed,
        vec![("a".to_string(), &Bson::Int32(1)), ("b".to_string(), &Bson::Int32(2))]
    );
}

fn not_found() -> StorageError {
    StorageError::Core(CoreError {
        kind: CoreErrorKind::CollectionNotFound,
        text: "collection not found".to_string(),
    })
}

#[test]
fn a_denied_request_cannot_tell_forbidden_from_missing() {
    let denied_missing =
        authorize::<u64>(false, Err(not_found()), true, "shop", "orders").unwrap_err();
    let denied_there = authorize::<u64>(false, Ok(7), true, "shop", "orders").unwrap_err();
    assert_eq!(
        to_text(&denied_missing.into_response().body),
        to_text(&denied_there.into_response().body)
    );
    assert_eq!(authorize::<u64>(true, Ok(7), true, "shop", "orders").unwrap(), 7);
}

#[test]
fn a_missing_collection_is_elsewhere_only_where_there_are_peers() {
    let alone = collection::<u64>(Err(not_found()), false, "shop", "orders").unwrap_err();
    assert_eq!((alone.status, alone.retry()), (404, Retry::No));
    let among = collection::<u64>(Err(not_found()), true, "shop", "orders").unwrap_err();
    assert_eq!((among.status, among.retry()), (404, Retry::Elsewhere));
    assert!(among.message.starts_with("collection \"shop\".\"orders\" not found on this member;"));
    let other = collection::<u64>(Err(StorageError::Other), true, "shop", "orders").unwrap_err();
    assert_eq!(other.status, 500);
}

#[test]
fn a_listing_hides_what_the_caller_cannot_read() {
    let all = vec![
        Listed { name: "a".to_string(), readable: true },
        Listed { name: "b".to_string(), readable: false },
        Listed { name: "c".to_string(), readable: true },
    ];
    assert_eq!(to_text(&list_databases(&all)), "{\"databases\":[\"a\",\"c\"]}");
    assert_eq!(
        to_text(&list_collections(None, &all).unwrap()),
        "{\"collections\":[\"a\",\"c\"]}"
    );
    let gone = CoreError { kind: CoreErrorKind::DatabaseNotFound, text: "no db".to_string() };
    assert_eq!(list_collections(Some(gone), &all).unwrap_err().status, 404);
    assert_eq!(to_text(&create_collection("orders", 7)), "{\"created\":\"orders\",\"id\":7}");
}

#[test]
fn a_system_database_is_never_dropped() {
    let held = vec![
        Held { id: 1, is_shadow: false },
        Held { id: 2, is_shadow: true },
        Held { id: 3, is_shadow: true },
    ];
    let e = drop_database("__kimmy", true, &held).unwrap_err();
    assert_eq!(e.message, "__kimmy is a system database and cannot be dropped");
    assert_eq!(drop_database("__kimmy", false, &held).unwrap_err().status, 400);
    assert_eq!(drop_database("shop", false, &held).unwrap_err().status, 403);
    assert_eq!(drop_database("shop", true, &held).unwrap(), vec![2, 3]);
    assert_eq!(drop_collection(true, false, 1, 2).unwrap(), 2);
    assert_eq!(drop_collection(false, false, 1, 2).unwrap_err().status, 403);
    assert_eq!(to_text(&dropped(num(3))), "{\"dropped\":3}");
    assert_eq!(to_text(&drop_index(true)), "{\"dropped\":true}");
}

fn index_spec(enforcement: Option<&str>, filter: Option<Json>) -> IndexSpec {
    IndexSpec {
        fields: vec![IndexFieldSpec { path: "n".to_string(), descending: false }],
        unique: true,
        name: None,
        enforcement: enforcement.map(str::to_string),
        expire_after_seconds: Some(60),
        partial_filter_expression: filter,
    }
}

#[test]
fn an_index_is_asked_for_as_the_request_says_it() {
    let request = create_index(true, index_spec(None, None)).unwrap();
    assert_eq!(request.enforcement, Enforcement::Local);
    assert_eq!(request.fields.len(), 1);
    assert!(request.unique);
    assert_eq!(request.expire_after_seconds, Some(60));
    assert!(request.partial_filter.is_none());
    assert_eq!(
        create_index(true, index_spec(Some("coordinated"), None)).unwrap().enforcement,
        Enforcement::Coordinated
    );
    let filter = object(vec![("a", num(1))]);
    let request = create_index(true, index_spec(Some("local"), Some(filter))).unwrap();
    assert_eq!(request.partial_filter.unwrap(), vec![("a".to_string(), Bson::Int32(1))]);

    let e = create_index(true, index_spec(Some("x\"y"), Some(num(1)))).unwrap_err();
    assert_eq!(
        e.message,
        "unknown enforcement \"x\\\"y\": expected \"local\" or \"coordinated\""
    );
    assert!(create_index(true, index_spec(None, Some(num(1)))).is_err());
    assert_eq!(create_index(false, index_spec(None, None)).unwrap_err().status, 403);
}

fn index(expire: Option<i64>, filter: Option<Document>) -> IndexMeta {
    IndexMeta {
        name: "n_1".to_string(),
        fields: vec![IndexFieldSpec { path: "n".to_string(), descending: true }],
        unique: false,
        enforcement: Enforcement::Local,
        multikey: true,
        expire_after_secs: expire,
        partial_filter: filter,
    }
}

#[test]
fn an_index_is_listed_with_its_counts_and_only_the_policies_it_has() {
    let plain = "{\"name\":\"n_1\",\"fields\":[{\"path\":\"n\",\"descending\":true}],\
                 \"unique\":false,\"enforcement\":\"local\",\"multikey\":true,\"unkeyed\":2,\
                 \"undecidable\":0";
    assert_eq!(to_text(&index_to_json(&index(None, None), 2, 0)), format!("{plain}}}"));
    let filter = vec![("a".to_string(), Bson::Int32(1))];
    assert_eq!(
        to_text(&index_to_json(&index(Some(60), Some(filter)), 2, 0)),
        format!(
            "{plain},\"expireAfterSeconds\":60,\"partialFilterExpression\":{{\"a\":1}}}}"
        )
    );
    assert_eq!(
        to_text(&list_indexes(&vec![(index(None, None), 2, 0)])),
        format!("{{\"indexes\":[{plain}}}]}}")
    );
}

#[test]
fn a_confirmation_names_who_holds_the_change() {
    let found = DdlConfirmation {
        confirmed: vec!["n1".to_string()],
        refused: vec![],
        pending: vec![("n2".to_string(), "no answer".to_string())],
    };
    let body = confirmation_to_json(&found);
    assert_eq!(
        to_text(&body),
        "{\"confirmed\":[\"n1\"],\"refused\":[],\"pending\":[{\"node\":\"n2\",\"reason\":\"no \
         answer\"}]}"
    );
    let answer = || vec![("dropped".to_string(), Json::Bool(true))];
    assert_eq!(to_text(&with_confirmation(answer(), None)), "{\"dropped\":true}");
    assert!(to_text(&with_confirmation(answer(), Some(body))).contains("\"confirmation\":{"));
    assert_eq!(confirm_cap(None), None);
    assert_eq!(confirm_cap(Some(1_000)), Some(750));
    assert_eq!(confirm_cap(Some(100)), Some(0));
}

fn violation(index: &str, id: i64) -> Violation {
    Violation {
        index: index.to_string(),
        ids: vec![Bson::Int64(id), Bson::Int64(id + 1)],
        merged: Bson::Int64(id),
        documents: vec![Some(vec![("_id".to_string(), Bson::Int64(id))]), None],
    }
}

#[test]
fn violations_are_counted_by_index_or_shown_for_one() {
    let live = vec![violation("z", 1), violation("a", 3), violation("z", 5), violation("ab", 7)];
    assert_eq!(
        to_text(&violations(&live, None)),
        "{\"count\":4,\"indexes\":[{\"name\":\"a\",\"count\":1},{\"name\":\"ab\",\"count\":1},\
         {\"name\":\"z\",\"count\":2}]}"
    );
    assert_eq!(
        to_text(&violations(&live, Some("a"))),
        "{\"index\":\"a\",\"count\":1,\"groups\":[{\"ids\":[3,4],\"merged\":3,\"documents\":\
         [{\"_id\":3}]}]}"
    );
    assert_eq!(
        to_text(&violations(&live, Some("none"))),
        "{\"index\":\"none\",\"count\":0,\"groups\":[]}"
    );
}

#[test]
fn a_stored_document_has_an_id() {
    let doc = vec![("_id".to_string(), Bson::Int32(4))];
    assert_eq!(document_id(&doc).unwrap(), &Bson::Int32(4));
    let e = document_id(&vec![]).unwrap_err();
    assert_eq!((e.status, e.message.as_str()), (500, "a stored document has no _id"));
}

#[test]
fn the_time_is_milliseconds_since_the_epoch() {
    assert_eq!(now_millis(None), 0);
    assert_eq!(now_millis(Some(1_700_000_000_000)), 1_700_000_000_000);
    for ms in [u128::MAX, 1 << 63, (1 << 64) + 5, (1 << 63) - 1] {
        assert_eq!(now_millis(Some(ms)), ms as i64);
    }
}

#[test]
fn a_pipeline_is_an_array_of_documents() {
    let stage = || object(vec![("$count", text("c"))]);
    assert_eq!(parse_pipeline(&Json::Array(vec![stage()])).unwrap().len(), 1);
    assert_eq!(
        parse_pipeline(&stage()).unwrap_err().message,
        "pipeline must be an array of stages"
    );
    assert!(parse_pipeline(&Json::Array(vec![stage(), num(1)])).is_err());
    assert_eq!(
        to_text(&aggregate(&vec![vec![("c".to_string(), Bson::Int32(6))]])),
        "{\"documents\":[{\"c\":6}],\"count\":1}"
    );
}

fn keyed(key: Option<i64>, id: i32) -> Keyed {
    Keyed { key: key.map(encoded), document: vec![("_id".to_string(), Bson::Int32(id))] }
}

#[test]
fn a_lookup_joins_equal_keys_in_stored_order_and_always_gives_an_array() {
    let mut input = vec![keyed(Some(1), 1), keyed(Some(2), 2), keyed(None, 3), keyed(Some(1), 4)];
    let foreign = vec![
        keyed(Some(1), 10),
        keyed(Some(9), 11),
        keyed(None, 12),
        keyed(Some(1), 13),
    ];
    assert_eq!(lookup_held(&input, &foreign), 2, "what nothing joins is not held");
    lookup(&mut input, &foreign, "found");
    let joined = |i: usize| -> Vec<i32> {
        match &input[i].document[1] {
            (name, Bson::Array(docs)) if name == "found" => docs
                .iter()
                .map(|d| match d {
                    Bson::Document(d) => match d[0].1 {
                        Bson::Int32(id) => id,
                        _ => panic!("{d:?}"),
                    },
                    _ => panic!("{d:?}"),
                })
                .collect(),
            other => panic!("{other:?}"),
        }
    };
    assert_eq!(joined(0), vec![10, 13]);
    assert_eq!(joined(1), Vec::<i32>::new());
    assert_eq!(joined(2), Vec::<i32>::new(), "a document without a key joins nothing");
    assert_eq!(joined(3), vec![10, 13]);
}

#[test]
fn a_sub_pipelines_documents_are_counted_together() {
    let found = vec![vec![("n".to_string(), Bson::Int32(1))]];
    let mut doc = vec![("found".to_string(), Bson::Null)];
    let mut held = 4;
    lookup_pipeline(&mut doc, "found", &found, &mut held);
    assert_eq!(held, 5);
    assert_eq!(
        doc,
        vec![(
            "found".to_string(),
            Bson::Array(vec![Bson::Document(vec![("n".to_string(), Bson::Int32(1))])])
        )]
    );
}

#[test]
fn a_pipeline_join_asks_for_each_step_once_and_in_order() {
    let named = |n: i32| vec![("n".to_string(), Bson::Int32(n))];
    for leading in [false, true] {
        let mut join = PipelineJoin::new(vec![named(1), named(2)], "found", leading);
        assert_eq!(join.action(), JoinAction::Read);
        join.note(JoinEvent::Within);
        assert_eq!(join.action(), JoinAction::Read, "what was not asked for changes nothing");
        join.note(JoinEvent::Read { foreign: 9 });
        assert_eq!(join.action(), JoinAction::Check { held: 9 });
        join.note(JoinEvent::Within);
        if leading {
            assert_eq!(join.action(), JoinAction::Filter);
            join.note(JoinEvent::Filtered);
        }
        let from = usize::from(leading);
        assert_eq!(join.action(), JoinAction::Run { at: 0, from });
        assert_eq!(join.input(0), Some(&named(1)));
        assert_eq!(join.input(2), None);
        assert!(join.counts(2));
        join.note(JoinEvent::Joined { documents: vec![named(7), named(8)] });
        assert_eq!(join.action(), JoinAction::Check { held: 2 });
        join.note(JoinEvent::Within);
        assert_eq!(join.action(), JoinAction::Run { at: 1, from });
        assert!(!join.counts(usize::MAX));
        join.note(JoinEvent::Joined { documents: vec![named(9)] });
        assert_eq!(join.action(), JoinAction::Check { held: 3 }, "the total over every input");
        join.note(JoinEvent::Within);
        assert_eq!(join.action(), JoinAction::Done);
        let joined = |n: i32, found: Vec<i32>| {
            let mut doc = named(n);
            let found = found.into_iter().map(|n| Bson::Document(named(n))).collect();
            doc.push(("found".to_string(), Bson::Array(found)));
            doc
        };
        assert_eq!(join.into_documents(), vec![joined(1, vec![7, 8]), joined(2, vec![9])]);
    }
}

#[test]
fn a_pipeline_join_without_inputs_still_runs_its_leading_match() {
    let mut join = PipelineJoin::new(vec![], "found", true);
    join.note(JoinEvent::Read { foreign: 1 });
    join.note(JoinEvent::Within);
    assert_eq!(join.action(), JoinAction::Filter);
    join.note(JoinEvent::Filtered);
    assert_eq!(join.action(), JoinAction::Done);
    assert!(join.into_documents().is_empty());
}
