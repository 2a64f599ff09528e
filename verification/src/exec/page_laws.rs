//! What a page of a query is, whatever way its matches are found.

use vstd::prelude::*;
use vstd::string::*;

use super::laws::{count_json, document_json, explains, has_field, lacks_field};
use super::order::{
    bytes_rank, compare_bytes, compare_keys, directions, in_order, keys_rank, key_bytes,
    sort_is_id_ascending, sorted, the_full_sort_is_a_sort, with_id_tiebreak, Rank, SortKey,
};
use super::pipeline::aggregate_with_limits;
use super::read::{
    count, find, first_unsortable, page_from, paging, FindParams, FindReader, Paging,
    QueryRead,
};
use super::scan::{
    a_bound_keeps_the_first_matches, behind, examined_of, left_after, lemma_visited_push, limit_of,
    matching, offered, past,
    records_past, visit_matching, Access, Answered, Candidate, Order, Probe, QueryStats, Reader,
    Taken, Visit,
};
use crate::error::{ApiError, CoreError};
use crate::json::{Json, JsonView};

verus! {

/// Whether `a` comes before `b`: at the first byte that differs it has the lesser,
/// or it is what `b` begins with.
pub open spec fn bytes_before(a: Seq<u8>, b: Seq<u8>) -> bool {
    exists|k: int| #[trigger] differ_at(a, b, k)
}

/// Whether `a` and `b` agree up to `k`, and `a` is the lesser there.
pub open spec fn differ_at(a: Seq<u8>, b: Seq<u8>, k: int) -> bool {
    &&& 0 <= k <= a.len() && k < b.len()
    &&& forall|i: int| 0 <= i < k ==> a[i] == b[i]
    &&& k == a.len() || a[k] < b[k]
}

/// Bytes are in order by the first that differs, and what another begins with is
/// before it.
pub proof fn bytes_go_by_the_first_that_differs(a: Seq<u8>, b: Seq<u8>)
    ensures
        bytes_rank(a, b) == Rank::First <==> bytes_before(a, b),
        bytes_rank(a, b) == Rank::Second <==> bytes_before(b, a),
        bytes_rank(a, b) == Rank::Same <==> a == b,
    decreases a.len(),
{
    super::order::lemma_bytes_rank(a, b);
    if a.len() > 0 && b.len() > 0 && a[0] == b[0] {
        let x = a.skip(1);
        let y = b.skip(1);
        bytes_go_by_the_first_that_differs(x, y);
        lemma_differ_skip(a, b);
        lemma_differ_skip(b, a);
    } else {
        if bytes_before(a, b) {
            let k = choose|k: int| #[trigger] differ_at(a, b, k);
            assert(k == 0);
        }
        if bytes_before(b, a) {
            let k = choose|k: int| #[trigger] differ_at(b, a, k);
            assert(k == 0);
        }
        if a.len() == 0 && b.len() > 0 || a.len() > 0 && b.len() > 0 && a[0] < b[0] {
            assert(differ_at(a, b, 0));
        }
        if b.len() == 0 && a.len() > 0 || a.len() > 0 && b.len() > 0 && b[0] < a[0] {
            assert(differ_at(b, a, 0));
        }
    }
}

proof fn lemma_differ_skip(a: Seq<u8>, b: Seq<u8>)
    requires
        a.len() > 0,
        b.len() > 0,
        a[0] == b[0],
    ensures
        bytes_before(a, b) <==> bytes_before(a.skip(1), b.skip(1)),
{
    let x = a.skip(1);
    let y = b.skip(1);
    if bytes_before(a, b) {
        let k = choose|k: int| #[trigger] differ_at(a, b, k);
        assert(k > 0);
        assert forall|i: int| 0 <= i < k - 1 implies x[i] == y[i] by {
            assert(a[i + 1] == b[i + 1]);
        }
        assert(differ_at(x, y, k - 1));
    }
    if bytes_before(x, y) {
        let k = choose|k: int| #[trigger] differ_at(x, y, k);
        assert forall|i: int| 0 <= i < k + 1 implies a[i] == b[i] by {
            if i > 0 {
                assert(x[i - 1] == y[i - 1]);
            }
        }
        assert(differ_at(a, b, k + 1));
    }
}

/// Comparing bytes says which come first.
pub proof fn comparing_bytes_says_which_come_first(a: &[u8], b: &[u8], r: Rank)
    requires
        call_ensures(compare_bytes, (a, b), r),
    ensures
        r == Rank::First <==> bytes_before(a@, b@),
        r == Rank::Second <==> bytes_before(b@, a@),
        r == Rank::Same <==> a@ == b@,
{
    bytes_go_by_the_first_that_differs(a@, b@);
}

/// A sort goes by its first key that differs: the lesser comes first where that key
/// ascends, and the greater where it descends.
pub proof fn a_sort_goes_by_its_first_key_that_differs(
    order: Vec<SortKey>,
    a: Candidate,
    b: Candidate,
    k: int,
    r: Rank,
)
    requires
        call_ensures(compare_keys, (&order, &a, &b), r),
        0 <= k < order@.len(),
        a.sort_keys@.len() == order@.len(),
        b.sort_keys@.len() == order@.len(),
        forall|i: int| 0 <= i < k ==> (#[trigger] a.sort_keys@[i])@ == b.sort_keys@[i]@,
        bytes_before(a.sort_keys@[k]@, b.sort_keys@[k]@),
    ensures
        !order@[k].descending ==> r == Rank::First,
        order@[k].descending ==> r == Rank::Second,
{
    lemma_keys_go_by(directions(order@), a, b, k, 0);
}

/// Which of two matches comes first, by their first key that differs.
pub proof fn lemma_keys_go_by(d: Seq<bool>, a: Candidate, b: Candidate, k: int, from: nat)
    requires
        from <= k < d.len(),
        d.len() == a.sort_keys@.len() == b.sort_keys@.len(),
        forall|i: int| from <= i < k ==> (#[trigger] a.sort_keys@[i])@ == b.sort_keys@[i]@,
        bytes_before(a.sort_keys@[k]@, b.sort_keys@[k]@),
    ensures
        keys_rank(d, key_bytes(a.sort_keys@), key_bytes(b.sort_keys@), from) == (if d[k] {
            Rank::Second
        } else {
            Rank::First
        }),
    decreases k - from,
{
    let x = a.sort_keys@[from as int]@;
    let y = b.sort_keys@[from as int]@;
    bytes_go_by_the_first_that_differs(x, y);
    if from < k {
        lemma_keys_go_by(d, a, b, k, from + 1);
    }
}

/// Whether a key comes after the one that is resumed from, where there is one.
pub open spec fn resumes_at(bound: Option<Seq<u8>>, key: Seq<u8>) -> bool {
    bound is Some ==> bytes_before(bound->0, key)
}

/// The documents that match among records, past a bound, in the order they stand
/// in.
pub open spec fn matches_among(records: Seq<Candidate>, bound: Option<Seq<u8>>) -> Seq<Candidate> {
    records.filter(|c: Candidate| c.matches && resumes_at(bound, c.key@))
}

/// The documents that match under probed keys, past a bound, in the order of the
/// probes.
pub open spec fn matches_under(probes: Seq<Probe>, bound: Option<Seq<u8>>) -> Seq<Candidate> {
    probes.filter(
        |p: Probe| p.found is Some && p.found->0.matches && resumes_at(bound, p.key@),
    ).map_values(|p: Probe| p.found->0)
}

/// The matches of an access path past a bound: of the documents under its keys, of
/// its index where that was read, and otherwise of the collection.
pub open spec fn matches_of(access: Access, bound: Option<Seq<u8>>) -> Seq<Candidate> {
    match access {
        Access::Keys(probes) => matches_under(probes@, bound),
        Access::Index { scan, records } => if scan.read is Some {
            matches_among(scan.candidates@, bound)
        } else {
            matches_among(records@, bound)
        },
        Access::Scan(records) => matches_among(records@, bound),
    }
}

proof fn lemma_past(bound: Option<Seq<u8>>, key: Seq<u8>)
    ensures
        past(bound, key) == resumes_at(bound, key),
{
    if let Some(after) = bound {
        bytes_go_by_the_first_that_differs(key, after);
    }
}

proof fn lemma_among(records: Seq<Candidate>, bound: Option<Seq<u8>>, n: nat)
    requires
        n <= records.len(),
    ensures
        matching(records_past(records, bound, n)) == matches_among(records.take(n as int), bound),
    decreases n,
{
    reveal(Seq::filter);
    if n > 0 {
        lemma_among(records, bound, (n - 1) as nat);
        let last = records[n - 1];
        assert(records.take(n as int).drop_last() =~= records.take(n - 1));
        assert(records.take(n as int).last() == last);
        lemma_past(bound, last.key@);
        lemma_visited_push(records_past(records, bound, (n - 1) as nat), last, None);
    } else {
        assert(records.take(0) =~= Seq::<Candidate>::empty());
    }
}

proof fn lemma_under(probes: Seq<Probe>, bound: Option<Seq<u8>>, n: nat)
    requires
        n <= probes.len(),
    ensures
        matching(super::scan::probed(probes, bound, n)) == matches_under(
            probes.take(n as int),
            bound,
        ),
    decreases n,
{
    reveal(Seq::filter);
    let pick = |p: Probe| p.found is Some && p.found->0.matches && resumes_at(bound, p.key@);
    if n > 0 {
        lemma_under(probes, bound, (n - 1) as nat);
        let last = probes[n - 1];
        let front = probes.take(n - 1);
        assert(probes.take(n as int).drop_last() =~= front);
        assert(probes.take(n as int).last() == last);
        lemma_past(bound, last.key@);
        if last.found is Some {
            lemma_visited_push(
                super::scan::probed(probes, bound, (n - 1) as nat),
                last.found->0,
                None,
            );
        }
        let taken = probes.take(n as int).filter(pick);
        let before = front.filter(pick);
        if pick(last) {
            assert(taken == before.push(last));
            assert(taken.map_values(|p: Probe| p.found->0) =~= before.map_values(
                |p: Probe| p.found->0,
            ).push(last.found->0));
        } else {
            assert(taken == before);
        }
    } else {
        assert(probes.take(0) =~= Seq::<Probe>::empty());
        assert(matches_under(probes.take(0), bound) =~= Seq::<Candidate>::empty());
    }
}

/// What a read finds on an access path is what matches there, past the bound, in
/// the order it stands in.
pub proof fn a_read_finds_what_matches(access: Access, bound: Option<Seq<u8>>)
    ensures
        matching(offered(access, bound)) == matches_of(access, bound),
        matches_of(access, bound).len() <= usize::MAX,
{
    match access {
        Access::Keys(probes) => {
            let len: usize = probes.len();
            assert(probes@.take(len as int) =~= probes@);
            lemma_under(probes@, bound, probes@.len());
            probes@.lemma_filter_len(
                |p: Probe|
                    p.found is Some && p.found->0.matches && resumes_at(bound, p.key@),
            );
        },
        Access::Index { scan, records } => {
            lemma_all_among(scan.candidates, bound);
            lemma_all_among(records, bound);
        },
        Access::Scan(records) => {
            lemma_all_among(records, bound);
        },
    }
}

proof fn lemma_all_among(records: Vec<Candidate>, bound: Option<Seq<u8>>)
    ensures
        matching(records_past(records@, bound, records@.len())) == matches_among(records@, bound),
        matches_among(records@, bound).len() <= usize::MAX,
{
    let len: usize = records.len();
    assert(records@.take(len as int) =~= records@);
    lemma_among(records@, bound, records@.len());
    records@.lemma_filter_len(|c: Candidate| c.matches && resumes_at(bound, c.key@));
}

/// Whether a page is as many of the matches as it may hold, from the offset on.
pub open spec fn is_page(
    page: Seq<Candidate>,
    matches: Seq<Candidate>,
    offset: nat,
    size: nat,
) -> bool {
    &&& offset >= matches.len() ==> page.len() == 0
    &&& offset < matches.len() <= offset + size ==> page.len() == matches.len() - offset
    &&& offset + size < matches.len() ==> page.len() == size
    &&& forall|i: int| 0 <= i < page.len() ==> #[trigger] page[i] == matches[offset + i]
}

/// How many documents a find asks for: a hundred where it does not say, and never
/// more than ten thousand.
pub open spec fn asked_size(params: FindParams) -> nat {
    match params.limit {
        None => 100,
        Some(n) => if n <= 10_000 {
            n as nat
        } else {
            10_000
        },
    }
}

/// How many matches a find asks to leave out in front.
pub open spec fn asked_offset(params: FindParams) -> nat {
    match params.skip {
        None => 0,
        Some(n) => n as nat,
    }
}

/// The key that a find resumes after.
pub open spec fn asked_bound(params: FindParams) -> Option<Seq<u8>> {
    match params.cursor {
        Some(Ok(key)) => Some(key@),
        _ => None,
    }
}

/// Whether a sort leaves the order of the keys as it is: there is none, or it is
/// `_id` ascending.
pub open spec fn keeps_key_order(order: Seq<SortKey>) -> bool {
    order.len() == 0 || order.len() == 1 && order[0].path@ == "_id"@ && !order[0].descending
}

/// Whether a page's documents are those of `page`, in order, and its count their
/// number.
pub open spec fn returns_page(body: JsonView, page: Seq<Candidate>) -> bool {
    &&& exists|docs: Seq<JsonView>| #[trigger]
        has_field(body, "documents"@, JsonView::Array(docs)) && docs.len() == page.len()
            && forall|i: int|
            0 <= i < docs.len() ==> #[trigger] docs[i] == document_json(page[i].page)
    &&& has_field(body, "count"@, count_json(page.len() as u64))
}

proof fn lemma_names()
    ensures
        "documents"@.len() == 9,
        "count"@.len() == 5,
        "stamps"@.len() == 6,
        "nextCursor"@.len() == 10,
        "explain"@.len() == 7,
{
    reveal_strlit("documents");
    reveal_strlit("count");
    reveal_strlit("stamps");
    reveal_strlit("nextCursor");
    reveal_strlit("explain");
}

proof fn lemma_page_in_order(params: Paging, given: Seq<Candidate>)
    requires
        !params.reorders(),
        matching(given).len() <= usize::MAX,
    ensures
        is_page(
            page_from(params, given),
            matching(given),
            params.offset(),
            params.page_size(),
        ),
{
    a_bound_keeps_the_first_matches(given, params.needed());
}

/// Whether a page's response says no more and no less than it was asked to: its
/// stamps where they were asked for, each in the place of its document, and how the
/// read went where that was.
pub open spec fn says_what_was_asked(
    body: JsonView,
    page: Seq<Candidate>,
    params: FindParams,
    stats: QueryStats,
) -> bool {
    &&& params.stamps ==> exists|stamps: Seq<JsonView>| #[trigger]
        has_field(body, "stamps"@, JsonView::Array(stamps)) && stamps.len() == page.len()
            && forall|i: int|
            0 <= i < stamps.len() ==> #[trigger] stamps[i] == JsonView::String(page[i].stamp@)
    &&& !params.stamps ==> lacks_field(body, "stamps"@)
    &&& params.explain ==> exists|explain: JsonView| #[trigger]
        has_field(body, "explain"@, explain) && explains(explain, stats)
    &&& !params.explain ==> lacks_field(body, "explain"@)
}

/// Whether a response carries the token of the last document of a page that can be
/// continued: one in the order of the keys, without an offset, that is full, not
/// empty, and ends in a document that has a token. No other response carries one.
pub open spec fn carries_cursor(
    body: JsonView,
    page: Seq<Candidate>,
    params: FindParams,
    order: Seq<SortKey>,
) -> bool {
    if asked_offset(params) == 0 && keeps_key_order(order) && page.len() == asked_size(params)
        && page.len() > 0 && page.last().cursor is Some {
        has_field(body, "nextCursor"@, JsonView::String(page.last().cursor->0@))
    } else {
        lacks_field(body, "nextCursor"@)
    }
}

proof fn lemma_page_fields(
    params: FindParams,
    read: QueryRead,
    page: Seq<Candidate>,
    stats: QueryStats,
    body: Json,
)
    requires
        body@ == JsonView::Object(super::read::page_body(paging(params, read), page, stats)),
        page.len() <= usize::MAX,
    ensures
        returns_page(body@, page),
        says_what_was_asked(body@, page, params, stats),
        carries_cursor(body@, page, params, read.order@),
{
    lemma_names();
    let m = body@->Object_0;
    assert(m[0].0 == "documents"@ && m[1].0 == "count"@);
    let docs = m[0].1->Array_0;
    assert(has_field(body@, "documents"@, JsonView::Array(docs)));
    let token = super::read::next_token(paging(params, read), page);
    let a: int = if params.stamps {
        3
    } else {
        2
    };
    let b: int = if token is Some {
        a + 1
    } else {
        a
    };
    if params.stamps {
        assert(m[2].0 == "stamps"@);
        let stamps = m[2].1->Array_0;
        assert(has_field(body@, "stamps"@, JsonView::Array(stamps)));
    }
    if token is Some {
        assert(m[a].0 == "nextCursor"@);
    }
    if params.explain {
        assert(m[b].0 == "explain"@);
        let explain = m[b].1;
        super::laws::lemma_explains(explain, stats);
        assert(has_field(body@, "explain"@, explain));
    }
}

/// A find that keeps the order of the keys returns the matches behind its offset,
/// as many as its limit: the document in place `i` of the page is the match in
/// place `skip + i`. It carries what was asked for beside it, and a cursor where it
/// can be continued.
pub proof fn a_page_is_the_matches_behind_its_offset(
    params: FindParams,
    read: QueryRead,
    access: Access,
    body: Json,
)
    requires
        call_ensures(find, (params, read, &access), Ok::<Json, ApiError>(body)),
        keeps_key_order(read.order@),
    ensures
        exists|page: Seq<Candidate>, stats: QueryStats|
            #![trigger returns_page(body@, page), says_what_was_asked(body@, page, params, stats)]
            {
                &&& is_page(
                    page,
                    matches_of(access, asked_bound(params)),
                    asked_offset(params),
                    asked_size(params),
                )
                &&& returns_page(body@, page)
                &&& says_what_was_asked(body@, page, params, stats)
                &&& carries_cursor(body@, page, params, read.order@)
            },
{
    let asked = paging(params, read);
    assert(!asked.reorders());
    let page = page_from(asked, offered(access, asked.bound()));
    a_read_finds_what_matches(access, asked.bound());
    lemma_page_in_order(asked, offered(access, asked.bound()));
    let stats = choose|stats: QueryStats| #[trigger]
        super::scan::says(stats, access, asked.bound(), asked.stop_after()) && body@
            == JsonView::Object(super::read::page_body(asked, page, stats));
    lemma_page_fields(params, read, page, stats, body);
}

/// Pages at the offsets 0, p, 2p and so on return every match once: the match in
/// place `j` is in the page at the offset `(j / p) * p`, in place `j % p`, and in no
/// other.
pub proof fn pages_by_offset_return_every_match_once(
    params: FindParams,
    read: QueryRead,
    access: Access,
    body: Json,
    p: int,
    j: int,
)
    requires
        call_ensures(find, (params, read, &access), Ok::<Json, ApiError>(body)),
        keeps_key_order(read.order@),
        p == asked_size(params),
        p > 0,
        asked_offset(params) as int % p == 0,
        0 <= j < matches_of(access, asked_bound(params)).len(),
    ensures
        exists|page: Seq<Candidate>| #[trigger]
            returns_page(body@, page) && if asked_offset(params) == (j / p) * p {
                &&& j % p < page.len()
                &&& page[j % p] == matches_of(access, asked_bound(params))[j]
            } else {
                j < asked_offset(params) || j >= asked_offset(params) + page.len()
            },
{
    a_page_is_the_matches_behind_its_offset(params, read, access, body);
    let all = matches_of(access, asked_bound(params));
    let s = asked_offset(params) as int;
    let (page, stats) = choose|page: Seq<Candidate>, stats: QueryStats|
        #![trigger returns_page(body@, page), says_what_was_asked(body@, page, params, stats)]
        {
            &&& is_page(page, all, asked_offset(params), asked_size(params))
            &&& returns_page(body@, page)
            &&& says_what_was_asked(body@, page, params, stats)
            &&& carries_cursor(body@, page, params, read.order@)
        };
    let q = j / p;
    let k = s / p;
    assert(j == q * p + j % p && 0 <= j % p < p) by (nonlinear_arith)
        requires
            q == j / p,
            p > 0,
    ;
    assert(s == k * p) by (nonlinear_arith)
        requires
            k == s / p,
            s % p == 0,
            p > 0,
    ;
    if s == q * p {
        assert(j == s + j % p);
        assert(page[j % p] == all[s + j % p]);
    } else {
        assert(k != q);
        assert(!(k * p <= j < k * p + p)) by (nonlinear_arith)
            requires
                j == q * p + j % p,
                0 <= j % p < p,
                k != q,
                p > 0,
        ;
        assert(page.len() <= p);
    }
    assert(returns_page(body@, page));
}

/// The directions a sort goes by: its own, and `_id` ascending behind them where it
/// does not name `_id`.
pub open spec fn is_directions(d: Seq<bool>, order: Seq<SortKey>) -> bool {
    let by_id = exists|i: int| 0 <= i < order.len() && (#[trigger] order[i]).path@ == "_id"@;
    &&& d.len() == order.len() + (if by_id {
        0int
    } else {
        1
    })
    &&& forall|i: int| 0 <= i < order.len() ==> #[trigger] d[i] == order[i].descending
    &&& !by_id ==> !d.last()
}

/// A sorted find returns the page of the full sort: the matches, each as often, in
/// the order of the sort's keys, from the offset on and as many as the limit.
pub proof fn a_sorted_page_is_cut_from_the_sorted_matches(
    params: FindParams,
    read: QueryRead,
    access: Access,
    body: Json,
)
    requires
        call_ensures(find, (params, read, &access), Ok::<Json, ApiError>(body)),
        !keeps_key_order(read.order@),
    ensures
        exists|page: Seq<Candidate>, stats: QueryStats, all: Seq<Candidate>, d: Seq<bool>|
            #![trigger returns_page(body@, page), says_what_was_asked(body@, page, params, stats), in_order(d, all)]
            {
                &&& is_directions(d, read.order@)
                &&& in_order(d, all)
                &&& all.to_multiset() == matches_of(access, None).to_multiset()
                &&& is_page(page, all, asked_offset(params), asked_size(params))
                &&& returns_page(body@, page)
                &&& says_what_was_asked(body@, page, params, stats)
                &&& carries_cursor(body@, page, params, read.order@)
            },
        asked_offset(params) + asked_size(params) <= 10_000,
        params.cursor is None,
{
    let asked = paging(params, read);
    assert(asked.reorders());
    let given = offered(access, asked.bound());
    let d = asked.sort_directions();
    let page = page_from(asked, given);
    a_read_finds_what_matches(access, asked.bound());
    let all = sorted(d, matching(given));
    the_full_sort_is_a_sort(d, matching(given));
    super::order::the_window_is_the_front_of_the_full_sort(d, matching(given), asked.needed());
    let stats = choose|stats: QueryStats| #[trigger]
        super::scan::says(stats, access, asked.bound(), asked.stop_after()) && body@
            == JsonView::Object(super::read::page_body(asked, page, stats));
    lemma_page_fields(params, read, page, stats, body);
    assert(is_directions(d, read.order@));
    assert(is_page(page, all, asked_offset(params), asked_size(params)));
}

/// A cursor pages in the order of the keys, so it stands beside no offset and no
/// other order; and a sort may hold no more than ten thousand documents. A find that
/// asks for either is refused, and so is one whose parts the query language refuses,
/// or whose cursor did not decode.
pub proof fn a_find_that_cannot_be_paged_is_refused(
    params: FindParams,
    read: QueryRead,
    access: Access,
    answer: Result<Json, ApiError>,
)
    requires
        call_ensures(find, (params, read, &access), answer),
    ensures
        params.cursor is Some && asked_offset(params) > 0 ==> answer is Err,
        params.cursor is Some && !keeps_key_order(read.order@) ==> answer is Err,
        params.cursor is Some && params.cursor->0 is Err ==> answer is Err,
        !keeps_key_order(read.order@) && asked_offset(params) + asked_size(params) > 10_000
            ==> answer is Err,
        params.filter is Some && read.filter is Some ==> answer is Err,
        params.sort is Some && read.sort is Some ==> answer is Err,
        params.projection is Some && read.projection is Some ==> answer is Err,
        !keeps_key_order(read.order@) && has_unsortable(matches_of(access, None)) ==> answer is Err,
        ({
            &&& super::laws::is_readable(params.filter) && read.filter is None
            &&& super::laws::is_readable(params.sort) && read.sort is None
            &&& super::laws::is_readable(params.projection) && read.projection is None
            &&& params.cursor is Some ==> asked_offset(params) == 0 && keeps_key_order(read.order@)
                && params.cursor->0 is Ok
            &&& !keeps_key_order(read.order@) ==> asked_offset(params) + asked_size(params)
                <= 10_000 && !has_unsortable(matches_of(access, None))
        }) ==> answer is Ok,
{
    let asked = paging(params, read);
    assert(asked.reorders() == !keeps_key_order(read.order@));
    a_read_finds_what_matches(access, None);
    lemma_unsortable(matches_of(access, None));
}

/// Whether a match has no place in the order.
pub open spec fn has_unsortable(matches: Seq<Candidate>) -> bool {
    exists|i: int| 0 <= i < matches.len() && (#[trigger] matches[i]).unsortable is Some
}

proof fn lemma_unsortable(matches: Seq<Candidate>)
    ensures
        first_unsortable(matches) is Some <==> has_unsortable(matches),
    decreases matches.len(),
{
    if matches.len() > 0 {
        let rest = matches.skip(1);
        lemma_unsortable(rest);
        if has_unsortable(rest) {
            let i = choose|i: int| 0 <= i < rest.len() && (#[trigger] rest[i]).unsortable is Some;
            assert(matches[i + 1].unsortable is Some);
        }
        if has_unsortable(matches) && matches[0].unsortable is None {
            let i = choose|i: int|
                0 <= i < matches.len() && (#[trigger] matches[i]).unsortable is Some;
            assert(rest[i - 1].unsortable is Some);
        }
    }
}

/// A find that is fed its candidates one at a time returns the same page of the
/// matches among them, where it keeps the order they come in.
pub proof fn a_fed_page_is_the_matches_behind_its_offset(
    find: FindReader<Candidate>,
    answered: Answered,
    body: Json,
)
    requires
        find.wf(),
        call_ensures(
            FindReader::<Candidate>::finish,
            (find, answered),
            Ok::<Json, ApiError>(body),
        ),
        keeps_key_order(find.asked().sort@),
        find.given().len() <= usize::MAX,
    ensures
        exists|page: Seq<Candidate>| #[trigger]
            returns_page(body@, page) && is_page(
                page,
                find.given().filter(|c: Candidate| c.matches),
                match find.asked().skip {
                    Some(n) => n as nat,
                    None => 0,
                },
                match find.asked().limit {
                    Some(n) => if n <= 10_000 {
                        n as nat
                    } else {
                        10_000
                    },
                    None => 100,
                },
            ),
{
    let asked = find.asked();
    let given = find.given();
    assert(!asked.reorders());
    lemma_matching_is_filter(given);
    given.lemma_filter_len(|c: Candidate| c.matches);
    lemma_page_in_order(asked, given);
    let page = page_from(asked, given);
    lemma_names();
    let m = body@->Object_0;
    assert(m[0].0 == "documents"@ && m[1].0 == "count"@);
    let docs = m[0].1->Array_0;
    assert(has_field(body@, "documents"@, JsonView::Array(docs)));
    assert(returns_page(body@, page));
}

/// The matches among candidates are those that match, in the order they come in.
pub proof fn lemma_matching_is_filter(candidates: Seq<Candidate>)
    ensures
        matching(candidates) == candidates.filter(|c: Candidate| c.matches),
    decreases candidates.len(),
{
    reveal(Seq::filter);
    if candidates.len() > 0 {
        let front = candidates.drop_last();
        lemma_matching_is_filter(front);
        lemma_visited_push(front, candidates.last(), None);
        assert(front.push(candidates.last()) =~= candidates);
    }
}

/// A scan hands on the first matches past its bound, as many as it is to stop
/// after, and says how many it handed on. Gathering is the same scan.
pub proof fn a_scan_hands_on_the_first_matches<'a>(
    access: &'a Access,
    order: Order<'a>,
    stop_after: Option<usize>,
    visit: Visit<'a>,
)
    requires
        call_ensures(visit_matching, (access, order, stop_after), visit),
    ensures
        ({
            let all = matches_of(*access, order.bound());
            let n = match stop_after {
                Some(n) => n as nat,
                None => all.len(),
            };
            &&& is_page(behind(visit.matches@), all, 0, n)
            &&& visit.stats.matched == visit.matches@.len()
            &&& visit.stats.id_lookup <==> *access is Keys
            &&& visit.stats.index is Some <==> *access is Index && access->scan.read is Some
        }),
{
    let given = offered(*access, order.bound());
    a_read_finds_what_matches(*access, order.bound());
    match stop_after {
        Some(n) => {
            a_bound_keeps_the_first_matches(given, n as nat);
        },
        None => {},
    }
    assert(behind(visit.matches@).len() == visit.matches@.len());
}

/// A count is the number of matches.
pub proof fn a_count_is_the_number_of_matches(
    params: FindParams,
    refused: Option<CoreError>,
    access: Access,
    body: Json,
)
    requires
        call_ensures(count, (&params, refused, &access), Ok::<Json, ApiError>(body)),
    ensures
        has_field(body@, "count"@, count_json(matches_of(access, None).len() as u64)),
        params.explain ==> !lacks_field(body@, "explain"@),
        !params.explain ==> lacks_field(body@, "explain"@),
{
    lemma_names();
    a_read_finds_what_matches(access, None);
    let m = body@->Object_0;
    assert(m[0].0 == "count"@);
    if params.explain {
        assert(m[1].0 == "explain"@);
    }
}

/// A pipeline starts from every match, or is refused where there are more than it
/// may hold.
pub proof fn a_pipeline_starts_from_every_match<'a>(
    access: &'a Access,
    leading: bool,
    max: usize,
    source: Result<Vec<&'a Candidate>, ApiError>,
)
    requires
        call_ensures(aggregate_with_limits, (access, leading, max), source),
    ensures
        source is Ok <==> matches_of(*access, None).len() <= max,
        source is Ok ==> behind(source->Ok_0@) == matches_of(*access, None),
{
    a_read_finds_what_matches(*access, None);
}

/// A read that resumes wants what comes after its key, and a read that does not
/// wants everything. It hands on each match until it has as many as it wants, and
/// goes on until then.
pub proof fn a_reader_hands_on_matches_until_it_is_full(
    reader: &mut Reader,
    key: Vec<u8>,
    wanted: bool,
    candidate: Candidate,
    taken: Taken,
)
    requires
        old(reader).wf(),
        call_ensures(Reader::wants, (old(reader), &key), wanted),
        call_ensures(Reader::offer, (reader, &candidate), taken),
    ensures
        wanted <==> resumes_at(old(reader).bound(), key@),
        final(reader).given() == old(reader).given().push(candidate),
        old(reader).stop_after() is None ==> taken.visit == candidate.matches && taken.go_on,
        old(reader).stop_after() is Some ==> ({
            let n = old(reader).stop_after()->0;
            let before = old(reader).given().filter(|c: Candidate| c.matches).len();
            &&& taken.visit <==> candidate.matches && before < n
            &&& taken.go_on <==> final(reader).given().filter(|c: Candidate| c.matches).len() < n
        }),
{
    lemma_past(old(reader).bound(), key@);
    lemma_matching_is_filter(old(reader).given());
    lemma_matching_is_filter(final(reader).given());
    if let Some(n) = old(reader).stop_after() {
        a_bound_keeps_the_first_matches(old(reader).given(), n as nat);
        a_bound_keeps_the_first_matches(final(reader).given(), n as nat);
    }
}

/// A sort that names `_id` is kept as it is; any other gets `_id` ascending behind
/// its own keys. Only `_id` ascending alone leaves the order of the keys.
pub proof fn a_sort_is_made_total_by_id(
    sort: Vec<SortKey>,
    order: Vec<SortKey>,
    by_id: bool,
    i: int,
)
    requires
        call_ensures(with_id_tiebreak, (&sort,), order),
        call_ensures(sort_is_id_ascending, (&sort,), by_id),
        0 <= i < sort@.len(),
    ensures
        order@.len() >= sort@.len(),
        order@[i].path@ == sort@[i].path@ && order@[i].descending == sort@[i].descending,
        (exists|k: int| 0 <= k < sort@.len() && (#[trigger] sort@[k]).path@ == "_id"@) ==> order@.len()
            == sort@.len(),
        !(exists|k: int| 0 <= k < sort@.len() && (#[trigger] sort@[k]).path@ == "_id"@)
            ==> order@.len() == sort@.len() + 1 && order@.last().path@ == "_id"@
            && !order@.last().descending,
        by_id <==> sort@.len() == 1 && sort@[0].path@ == "_id"@ && !sort@[0].descending,
{
    let views = super::order::sort_views(order@);
    let own = super::order::sort_views(sort@);
    assert(views.len() == order@.len() && own.len() == sort@.len());
    assert(views[i] == (order@[i].path@, order@[i].descending));
    assert(own[i] == (sort@[i].path@, sort@[i].descending));
    if !super::order::sorts_by_id(sort@) {
        let last = order@.len() - 1;
        assert(views[last] == (order@[last].path@, order@[last].descending));
    }
}

/// How many of these candidates match.
pub open spec fn number_matching(s: Seq<Candidate>) -> nat
    decreases s.len(),
{
    if s.len() == 0 {
        0
    } else {
        (if s[0].matches {
            1nat
        } else {
            0
        }) + number_matching(s.skip(1))
    }
}

/// Whether a read that looked at this many candidates stopped where it had to: behind
/// the last match it needed, and at the end where there are fewer.
pub open spec fn stops_behind(
    candidates: Seq<Candidate>,
    needed: Option<nat>,
    examined: nat,
) -> bool {
    &&& examined <= candidates.len()
    &&& needed is None ==> examined == candidates.len()
    &&& needed is Some ==> {
        &&& number_matching(candidates.take(examined as int)) <= needed->0
        &&& examined < candidates.len() ==> number_matching(candidates.take(examined as int))
            == needed->0
        &&& examined > 0 ==> number_matching(candidates.take(examined - 1)) < needed->0
    }
}

proof fn lemma_stops_behind(candidates: Seq<Candidate>, needed: Option<nat>)
    ensures
        stops_behind(candidates, needed, examined_of(candidates, needed)),
    decreases candidates.len(),
{
    assert(candidates.take(0) =~= Seq::<Candidate>::empty());
    assert(number_matching(Seq::<Candidate>::empty()) == 0);
    if candidates.len() > 0 && needed != Some(0nat) {
        let rest = candidates.skip(1);
        let left = left_after(needed, candidates[0]);
        lemma_stops_behind(rest, left);
        let e = examined_of(rest, left);
        assert(candidates.take(e as int + 1).skip(1) =~= rest.take(e as int));
        if e > 0 {
            assert(candidates.take(e as int).skip(1) =~= rest.take(e - 1));
        }
    }
}

/// A scan looks at no candidate behind the last match it needs, and says how many it
/// looked at.
pub proof fn a_scan_stops_behind_its_last_match<'a>(
    access: &'a Access,
    order: Order<'a>,
    stop_after: Option<usize>,
    visit: Visit<'a>,
)
    requires
        call_ensures(visit_matching, (access, order, stop_after), visit),
    ensures
        stop_after is Some ==> stops_behind(
            offered(*access, order.bound()),
            Some(stop_after->0 as nat),
            visit.stats.examined as nat,
        ),
        stop_after is None ==> stops_behind(
            offered(*access, order.bound()),
            None,
            visit.stats.examined as nat,
        ),
{
    lemma_stops_behind(offered(*access, order.bound()), limit_of(stop_after));
}

/// A find that keeps the order of the keys looks no further than its page, and one
/// that sorts looks at everything; where it is asked how the read went, it says so.
pub proof fn a_find_looks_as_far_as_it_must(
    params: FindParams,
    read: QueryRead,
    access: Access,
    body: Json,
)
    requires
        call_ensures(find, (params, read, &access), Ok::<Json, ApiError>(body)),
        params.explain,
        asked_offset(params) + asked_size(params) <= usize::MAX,
    ensures
        exists|explain: JsonView, examined: nat|
            {
                &&& #[trigger] has_field(body@, "explain"@, explain)
                &&& #[trigger] has_field(
                    explain,
                    "documentsExamined"@,
                    count_json(examined as u64),
                )
                &&& keeps_key_order(read.order@) ==> stops_behind(
                    offered(access, asked_bound(params)),
                    Some(asked_offset(params) + asked_size(params)),
                    examined,
                )
                &&& !keeps_key_order(read.order@) ==> stops_behind(
                    offered(access, None),
                    None,
                    examined,
                )
            },
{
    let asked = paging(params, read);
    assert(asked.reorders() == !keeps_key_order(read.order@));
    let page = page_from(asked, offered(access, asked.bound()));
    let stats = choose|stats: QueryStats| #[trigger]
        super::scan::says(stats, access, asked.bound(), asked.stop_after()) && body@
            == JsonView::Object(super::read::page_body(asked, page, stats));
    lemma_stops_behind(offered(access, asked.bound()), limit_of(asked.stop_after()));
    lemma_names();
    let m = body@->Object_0;
    let token = super::read::next_token(asked, page);
    let a: int = if params.stamps {
        3
    } else {
        2
    };
    let b: int = if token is Some {
        a + 1
    } else {
        a
    };
    assert(m[0].0 == "documents"@ && m[1].0 == "count"@);
    if params.stamps {
        assert(m[2].0 == "stamps"@);
    }
    if token is Some {
        assert(m[a].0 == "nextCursor"@);
    }
    assert(m[b].0 == "explain"@);
    let explain = m[b].1;
    super::laws::lemma_explains(explain, stats);
    assert(has_field(body@, "explain"@, explain));
    assert(has_field(explain, "documentsExamined"@, count_json(stats.examined as u64)));
}

} // verus!
