//! Reads: a page of documents, a count, one document by its id.

use vstd::prelude::*;
use vstd::string::*;

use super::order::{
    at_most, directions, id_ascending, sort_is_id_ascending, sort_views, sorted, sorts_by_id,
    the_window_is_the_front_of_the_full_sort, window, with_id_tiebreak, SortKey, TopK, ID_FIELD,
};
use super::query::{part_refused, read_part, valid_part};
use super::scan::{
    answered_by, ascending, behind, examined_of, explained, in_key_order, json_size, limit_of,
    matching, offered, offered_candidates, past, resuming_after_a_page_gives_what_follows_it, says,
    size, stopping_loses_nothing, tells, visited_of, Access, Answered, Candidate,
    Held, QueryStats, Reader,
};
use crate::codec::{object_id_bytes, parse_object_id};
use crate::error::{bad_request, core_refusal, not_found, ApiError, ApiErrorView, CoreError};
use crate::json::{
    bson_members, document_to_json, json_items, json_members, json_of_members, Document, Json,
    JsonView,
};
use crate::text::{decimal, parse_i64, push_decimal, signed_number};

verus! {

/// Default page size, so an unbounded `find` cannot be used to pull an entire
/// collection into memory by accident.
pub const DEFAULT_LIMIT: usize = 100;

pub const MAX_LIMIT: usize = 10_000;

/// The most documents a sorted `find` may hold: `skip + limit`. Where `limit`
/// is clamped this is refused, because a clamped `skip` would return a different
/// page from the one asked for and say nothing.
pub const MAX_SORT_WINDOW: usize = 10_000;

/// Everything `find` and `count` can be asked to do.
#[derive(Debug)]
pub struct FindParams {
    pub filter: Option<Json>,
    pub sort: Option<Json>,
    pub projection: Option<Json>,
    pub limit: Option<usize>,
    pub skip: Option<usize>,
    /// Report how the query was answered alongside the results.
    pub explain: bool,
    /// Resume after a previous page: the key its token decoded to, or why it did
    /// not.
    pub cursor: Option<Result<Vec<u8>, CoreError>>,
    /// Return each document's stamp alongside it.
    pub stamps: bool,
}

/// What the query language makes of a query's documents: the keys its sort
/// orders by, none where it asks for none, and what is refused of each document.
#[derive(Debug)]
pub struct QueryRead {
    pub order: Vec<SortKey>,
    pub filter: Option<CoreError>,
    pub sort: Option<CoreError>,
    pub projection: Option<CoreError>,
}

/// Which page of a query's matches is wanted, and in what order.
#[derive(Debug)]
pub struct Paging {
    /// The sort asked for; empty where none was.
    pub sort: Vec<SortKey>,
    pub limit: Option<usize>,
    pub skip: Option<usize>,
    pub explain: bool,
    pub cursor: Option<Result<Vec<u8>, CoreError>>,
    pub stamps: bool,
}

/// The page a query asks for.
pub open spec fn paging(params: FindParams, read: QueryRead) -> Paging {
    Paging {
        sort: read.order,
        limit: params.limit,
        skip: params.skip,
        explain: params.explain,
        cursor: params.cursor,
        stamps: params.stamps,
    }
}

/// Every JSON value of a query is one that a document can be read from.
pub open spec fn valid_query(params: FindParams) -> bool {
    valid_part(params.filter) && valid_part(params.sort) && valid_part(params.projection)
}

/// Why a query is refused before anything is read, where it is: each of its
/// documents in turn, and then the page it asks for.
pub open spec fn find_refused(params: FindParams, read: QueryRead) -> Option<ApiErrorView> {
    if part_refused(params.filter, read.filter) is Some {
        part_refused(params.filter, read.filter)
    } else if part_refused(params.sort, read.sort) is Some {
        part_refused(params.sort, read.sort)
    } else if part_refused(params.projection, read.projection) is Some {
        part_refused(params.projection, read.projection)
    } else {
        paging(params, read).refused()
    }
}

impl Paging {
    /// How many documents a page holds.
    pub open spec fn page_size(self) -> nat {
        match self.limit {
            Some(n) => if n < MAX_LIMIT {
                n as nat
            } else {
                MAX_LIMIT as nat
            },
            None => DEFAULT_LIMIT as nat,
        }
    }

    /// How many matches a page leaves out in front.
    pub open spec fn offset(self) -> nat {
        match self.skip {
            Some(n) => n as nat,
            None => 0,
        }
    }

    /// Whether matches have to be sorted: `_id` ascending is the order every
    /// access path already delivers.
    pub open spec fn reorders(self) -> bool {
        self.sort@.len() > 0 && !id_ascending(self.sort@)
    }

    /// How many matches are needed to fill the page, at most what a number
    /// holds.
    pub open spec fn needed(self) -> nat {
        if self.offset() + self.page_size() <= usize::MAX {
            self.offset() + self.page_size()
        } else {
            usize::MAX as nat
        }
    }

    /// Whether the page can be continued by a cursor.
    pub open spec fn continuable(self) -> bool {
        self.offset() == 0 && !self.reorders()
    }

    /// The order matches are sorted by, as directions: the sort's own, and `_id`
    /// ascending behind them unless it sorts by `_id` already.
    pub open spec fn sort_directions(self) -> Seq<bool> {
        if sorts_by_id(self.sort@) {
            directions(self.sort@)
        } else {
            directions(self.sort@).push(false)
        }
    }

    /// Why the query is refused before anything is read, where it is.
    pub open spec fn refused(self) -> Option<ApiErrorView> {
        if self.cursor is Some && self.offset() > 0 {
            Some(
                bad_request(
                    "`cursor` and `skip` cannot be combined: a cursor already says where to resume"@,
                ),
            )
        } else if self.cursor is Some && self.reorders() {
            Some(
                bad_request(
                    "`cursor` pages in _id order, so it takes no `sort` other than {\"_id\": 1}. Sorting by another field still uses `skip`"@,
                ),
            )
        } else if self.cursor is Some && self.cursor->0 is Err {
            Some(core_refusal(self.cursor->0->Err_0))
        } else if self.reorders() && self.needed() > MAX_SORT_WINDOW {
            Some(
                bad_request(
                    "a sorted find holds `skip + limit` documents while it sorts, which may not exceed "@
                        + decimal(MAX_SORT_WINDOW as nat) + " (got "@ + decimal(self.needed())
                        + "). To page deeper, sort by {\"_id\": 1} and follow `nextCursor`, or narrow the filter on the sort field to where the last page ended"@,
                ),
            )
        } else {
            None
        }
    }

    /// After how many matches the scan stops: a sort has to see every one.
    pub open spec fn stop_after(self) -> Option<usize> {
        if self.reorders() {
            None
        } else {
            Some(self.needed() as usize)
        }
    }

    /// The key that the read starts behind: a sort has to see every match.
    pub open spec fn bound(self) -> Option<Seq<u8>> {
        if self.reorders() {
            None
        } else {
            self.resume()
        }
    }

    /// The key that the cursor decoded to.
    pub open spec fn resume(self) -> Option<Seq<u8>> {
        match self.cursor {
            Some(Ok(key)) => Some(key@),
            _ => None,
        }
    }
}

/// The first reason that one of the matches cannot be sorted.
pub open spec fn first_unsortable(matches: Seq<Candidate>) -> Option<Seq<char>>
    decreases matches.len(),
{
    if matches.len() == 0 {
        None
    } else {
        match matches[0].unsortable {
            Some(why) => Some(why@),
            None => first_unsortable(matches.skip(1)),
        }
    }
}

/// The matches a page returns of the candidates a read was given, where the query
/// is not refused: those behind the offset, of the full sort or of the order they
/// came in, and no more than the page holds.
pub open spec fn page_from(params: Paging, given: Seq<Candidate>) -> Seq<Candidate> {
    if params.reorders() {
        beyond(
            at_most(sorted(params.sort_directions(), matching(given)), params.needed()),
            params.offset(),
        )
    } else {
        beyond(visited_of(given, Some(params.needed())), params.offset())
    }
}

/// The matches a page returns of what an access path offers.
pub open spec fn page_of(params: Paging, access: Access) -> Seq<Candidate> {
    page_from(params, offered(access, params.bound()))
}

/// What is left behind the first `n`.
pub open spec fn beyond(s: Seq<Candidate>, n: nat) -> Seq<Candidate> {
    if n <= s.len() {
        s.skip(n as int)
    } else {
        Seq::empty()
    }
}

/// The documents a page returns.
pub open spec fn page_documents(page: Seq<Candidate>) -> Seq<JsonView> {
    Seq::new(page.len(), |i: int| JsonView::Object(json_of_members(bson_members(page[i].page@))))
}

/// The stamps of a page's documents.
pub open spec fn page_stamps(page: Seq<Candidate>) -> Seq<JsonView> {
    Seq::new(page.len(), |i: int| JsonView::String(page[i].stamp@))
}

/// The token that continues a page: only where the query can be continued and
/// the page is full.
pub open spec fn next_token(params: Paging, page: Seq<Candidate>) -> Option<Seq<char>> {
    if params.continuable() && page.len() == params.page_size() && page.len() > 0 {
        match page.last().cursor {
            Some(token) => Some(token@),
            None => None,
        }
    } else {
        None
    }
}

/// The page's response.
pub open spec fn page_body(
    params: Paging,
    page: Seq<Candidate>,
    stats: QueryStats,
) -> Seq<(Seq<char>, JsonView)> {
    let body = seq![
        ("documents"@, JsonView::Array(page_documents(page))),
        ("count"@, size(page.len() as usize)),
    ];
    let body = if params.stamps {
        body.push(("stamps"@, JsonView::Array(page_stamps(page))))
    } else {
        body
    };
    let body = match next_token(params, page) {
        Some(token) => body.push(("nextCursor"@, JsonView::String(token))),
        None => body,
    };
    if params.explain {
        body.push(("explain"@, JsonView::Object(explained(stats))))
    } else {
        body
    }
}

/// Every candidate that may be sorted has a key for each key of the order.
pub open spec fn keyed_for(params: Paging, candidates: Seq<Candidate>) -> bool {
    params.reorders() ==> forall|i: int|
        0 <= i < candidates.len() ==> (#[trigger] candidates[i]).sort_keys@.len()
            == params.sort_directions().len()
}

/// What `find` decides before anything is read.
struct FindPlan {
    limit: usize,
    skip: usize,
    needed: usize,
    reorders: bool,
    after: Option<Vec<u8>>,
}

fn plan_find(params: Paging) -> (plan: Result<(FindPlan, Paging), ApiError>)
    ensures
        plan matches Err(e) ==> params.refused() == Some(e@),
        plan matches Ok((p, rest)) ==> {
            &&& params.refused() is None
            &&& p.limit == params.page_size()
            &&& p.skip == params.offset()
            &&& p.needed == params.needed()
            &&& p.reorders == params.reorders()
            &&& (match p.after {
                Some(k) => Some(k@),
                None => None::<Seq<u8>>,
            }) == params.resume()
            &&& rest == (Paging { cursor: None, ..params })
        },
{
    let limit: usize = match params.limit {
        Some(n) => if n < MAX_LIMIT {
            n
        } else {
            MAX_LIMIT
        },
        None => DEFAULT_LIMIT,
    };
    let skip: usize = match params.skip {
        Some(n) => n,
        None => 0,
    };
    let reorders = params.sort.len() > 0 && !sort_is_id_ascending(&params.sort);
    let needed: usize = skip.saturating_add(limit);
    let mut after: Option<Vec<u8>> = None;
    match params.cursor {
        Some(decoded) => {
            // A cursor pages in `_id` order. Combining it with anything that
            // reorders or re-offsets the result is refused rather than silently
            // ignored.
            if skip > 0 {
                return Err(
                    ApiError::bad_request(
                        "`cursor` and `skip` cannot be combined: a cursor already says where to resume",
                    ),
                );
            }
            if reorders {
                return Err(
                    ApiError::bad_request(
                        "`cursor` pages in _id order, so it takes no `sort` other than {\"_id\": 1}. Sorting by another field still uses `skip`",
                    ),
                );
            }
            match decoded {
                Ok(key) => {
                    after = Some(key);
                },
                Err(e) => {
                    return Err(ApiError::from_core(e));
                },
            }
        },
        None => {},
    }
    if reorders && needed > MAX_SORT_WINDOW {
        let mut text =
            "a sorted find holds `skip + limit` documents while it sorts, which may not exceed ".to_owned();
        push_decimal(&mut text, MAX_SORT_WINDOW as u64);
        text.append(" (got ");
        push_decimal(&mut text, needed as u64);
        text.append(
            "). To page deeper, sort by {\"_id\": 1} and follow `nextCursor`, or narrow the filter on the sort field to where the last page ended",
        );
        return Err(ApiError::bad_request(text.as_str()));
    }
    let rest = Paging {
        sort: params.sort,
        limit: params.limit,
        skip: params.skip,
        explain: params.explain,
        cursor: None,
        stamps: params.stamps,
    };
    Ok((FindPlan { limit, skip, needed, reorders, after }, rest))
}

proof fn lemma_tiebreak_directions(sort: Seq<SortKey>, order: Seq<SortKey>)
    requires
        sort_views(order) == (if sorts_by_id(sort) {
            sort_views(sort)
        } else {
            sort_views(sort).push((ID_FIELD@, false))
        }),
    ensures
        directions(order) == (if sorts_by_id(sort) {
            directions(sort)
        } else {
            directions(sort).push(false)
        }),
{
    let expected = if sorts_by_id(sort) {
        directions(sort)
    } else {
        directions(sort).push(false)
    };
    assert(sort_views(order).len() == order.len());
    assert forall|i: int| 0 <= i < order.len() implies directions(order)[i] == expected[i] by {
        assert(sort_views(order)[i].1 == order[i].descending);
        if i < sort.len() {
            assert(sort_views(sort)[i].1 == sort[i].descending);
        }
    }
    assert(directions(order) =~= expected);
}

/// What is left behind the first `n`.
fn drop_front<T: Held>(items: Vec<T>, n: usize) -> (rest: Vec<T>)
    ensures
        behind(rest@) == beyond(behind(items@), n as nat),
{
    let ghost all = behind(items@);
    let mut items = items;
    if n <= items.len() {
        let rest = items.split_off(n);
        assert(behind(rest@) =~= all.skip(n as int));
        rest
    } else {
        let rest: Vec<T> = Vec::new();
        assert(behind(rest@) =~= Seq::<Candidate>::empty());
        rest
    }
}

proof fn lemma_first_unsortable_push(matches: Seq<Candidate>, next: Candidate)
    ensures
        first_unsortable(matches.push(next)) == (match first_unsortable(matches) {
            Some(why) => Some(why),
            None => match next.unsortable {
                Some(why) => Some(why@),
                None => None,
            },
        }),
    decreases matches.len(),
{
    reveal_with_fuel(first_unsortable, 2);
    let all = matches.push(next);
    if matches.len() == 0 {
        assert(all[0] == next);
        assert(all.skip(1) =~= Seq::<Candidate>::empty());
    } else {
        lemma_first_unsortable_push(matches.skip(1), next);
        assert(all[0] == matches[0]);
        assert(all.skip(1) =~= matches.skip(1).push(next));
    }
}

/// A find, a candidate at a time. It holds no more than the page it returns, or
/// the window that a sort needs.
pub struct FindReader<T> {
    params: Paging,
    plan: FindPlan,
    /// The order that matches are sorted in; none where they are not.
    order: Vec<SortKey>,
    reader: Reader,
    page: Vec<T>,
    top: TopK<T>,
    /// Why a match has no place in the order, where one has none.
    unsortable: Option<String>,
    asked: Ghost<Paging>,
}

impl<T: Held> FindReader<T> {
    /// The page that was asked for.
    pub closed spec fn asked(self) -> Paging {
        self.asked@
    }

    /// The candidates offered so far.
    pub closed spec fn given(self) -> Seq<Candidate> {
        self.reader.given()
    }

    /// How many of them were examined.
    pub open spec fn looked_at(self) -> nat {
        examined_of(self.given(), limit_of(self.asked().stop_after()))
    }

    /// How many matches were found.
    pub open spec fn found(self) -> nat {
        visited_of(self.given(), limit_of(self.asked().stop_after())).len()
    }

    /// Whether more candidates can change the answer.
    pub open spec fn unfinished(self) -> bool {
        match self.asked().stop_after() {
            Some(n) => self.found() < n,
            None => true,
        }
    }

    pub closed spec fn wf(self) -> bool {
        let asked = self.asked@;
        let matches = self.reader.visited();
        &&& self.reader.wf()
        &&& self.reader.stop_after() == asked.stop_after()
        &&& self.reader.bound() == asked.bound()
        &&& asked.refused() is None
        &&& self.params == (Paging { cursor: None, ..asked })
        &&& self.plan.limit == asked.page_size()
        &&& self.plan.skip == asked.offset()
        &&& self.plan.needed == asked.needed()
        &&& self.plan.reorders == asked.reorders()
        &&& if asked.reorders() {
            &&& directions(self.order@) == asked.sort_directions()
            &&& self.top.wf(self.order@)
            &&& self.top.size() == asked.needed()
            &&& match self.unsortable {
                Some(why) => first_unsortable(matches) == Some(why@),
                None => first_unsortable(matches) is None && self.top.kept() == window(
                    asked.sort_directions(),
                    matches,
                    asked.needed(),
                ),
            }
        } else {
            &&& self.order@.len() == 0
            &&& behind(self.page@) == beyond(matches, asked.offset())
        }
    }

    /// Begin a find, or say why it is refused before anything is read.
    pub fn start(params: FindParams, read: QueryRead) -> (find: Result<Self, ApiError>)
        requires
            valid_query(params),
        ensures
            match find {
                Err(e) => find_refused(params, read) == Some(e@),
                Ok(f) => {
                    &&& find_refused(params, read) is None
                    &&& f.wf()
                    &&& f.asked() == paging(params, read)
                    &&& f.given() == Seq::<Candidate>::empty()
                },
            },
    {
        match read_part(&params.filter, read.filter) {
            Ok(_) => {},
            Err(e) => {
                return Err(e);
            },
        }
        match read_part(&params.sort, read.sort) {
            Ok(_) => {},
            Err(e) => {
                return Err(e);
            },
        }
        match read_part(&params.projection, read.projection) {
            Ok(_) => {},
            Err(e) => {
                return Err(e);
            },
        }
        let asked = Paging {
            sort: read.order,
            limit: params.limit,
            skip: params.skip,
            explain: params.explain,
            cursor: params.cursor,
            stamps: params.stamps,
        };
        let ghost wanted = asked;
        let (plan, params) = match plan_find(asked) {
            Ok(planned) => planned,
            Err(e) => {
                return Err(e);
            },
        };
        let order = if plan.reorders {
            with_id_tiebreak(&params.sort)
        } else {
            Vec::new()
        };
        proof {
            if plan.reorders {
                lemma_tiebreak_directions(params.sort@, order@);
            }
        }
        let stop_after = if plan.reorders {
            None
        } else {
            Some(plan.needed)
        };
        let after = match &plan.after {
            Some(key) => Some(key.clone()),
            None => None,
        };
        let reader = Reader::new(after, stop_after);
        let top = TopK::new(plan.needed);
        let page: Vec<T> = Vec::new();
        assert(behind(page@) =~= Seq::<Candidate>::empty());
        let find = FindReader {
            params,
            plan,
            order,
            reader,
            page,
            top,
            unsortable: None,
            asked: Ghost(wanted),
        };
        assert(beyond(find.reader.visited(), wanted.offset()) =~= Seq::<Candidate>::empty());
        Ok(find)
    }

    /// The keys that each candidate is to carry sort bytes for; none where
    /// nothing is sorted.
    pub fn order(&self) -> (order: &Vec<SortKey>)
        requires
            self.wf(),
        ensures
            directions(order@) == (if self.asked().reorders() {
                self.asked().sort_directions()
            } else {
                Seq::empty()
            }),
    {
        assert(!self.asked@.reorders() ==> directions(self.order@) =~= Seq::<bool>::empty());
        &self.order
    }

    /// The key to read behind, and after how many matches to stop.
    pub fn bounds(&self) -> (bounds: (Option<&Vec<u8>>, Option<usize>))
        requires
            self.wf(),
        ensures
            (match bounds.0 {
                Some(k) => Some(k@),
                None => None::<Seq<u8>>,
            }) == self.asked().bound(),
            bounds.1 == self.asked().stop_after(),
    {
        (self.reader.after(), self.reader.limit())
    }

    /// Whether a document under this key is to be offered.
    pub fn wants(&self, key: &Vec<u8>) -> (b: bool)
        requires
            self.wf(),
        ensures
            b == past(self.asked().bound(), key@),
    {
        self.reader.wants(key)
    }

    /// Whether a candidate can be offered: there is a number for it, and it has
    /// the keys that the order asks for.
    pub fn takes(&self, candidate: &Candidate) -> (b: bool)
        requires
            self.wf(),
        ensures
            b == (self.looked_at() < usize::MAX && keyed_for(self.asked(), seq![*candidate])),
    {
        assert(self.asked@.reorders() ==> self.order@.len() == directions(self.order@).len());
        assert(keyed_for(self.asked@, seq![*candidate]) ==> self.asked@.reorders() ==> seq![
            *candidate,
        ][0].sort_keys@.len() == self.asked@.sort_directions().len());
        self.reader.examined() < usize::MAX && (!self.plan.reorders || candidate.sort_keys.len()
            == self.order.len())
    }

    /// Offer the next candidate; whether to go on.
    pub fn offer(&mut self, x: T) -> (go_on: bool)
        requires
            old(self).wf(),
            old(self).looked_at() < usize::MAX,
            keyed_for(old(self).asked(), seq![x.item()]),
        ensures
            final(self).wf(),
            final(self).asked() == old(self).asked(),
            final(self).given() == old(self).given().push(x.item()),
            final(self).looked_at() <= old(self).looked_at() + 1,
            go_on == final(self).unfinished(),
    {
        let ghost c = x.item();
        let ghost before = self.reader.visited();
        let ghost asked = self.asked@;
        proof {
            if asked.reorders() {
                assert(seq![c][0].sort_keys@.len() == asked.sort_directions().len());
                assert(directions(self.order@).len() == self.order@.len());
            }
            assert(before.push(c).drop_last() =~= before);
        }
        let taken = self.reader.offer(x.candidate());
        if !taken.visit {
            return taken.go_on;
        }
        proof {
            lemma_first_unsortable_push(before, c);
        }
        if self.plan.reorders {
            // A match the order has no position for refuses the whole query by
            // name.
            if self.unsortable.is_none() {
                match &x.candidate().unsortable {
                    Some(why) => {
                        self.unsortable = Some(why.clone());
                    },
                    None => {
                        self.top.offer(&self.order, x);
                    },
                }
            }
        } else {
            // What is skipped is counted past and not held.
            let ghost held = self.page@;
            if self.reader.matched() > self.plan.skip {
                self.page.push(x);
                assert(behind(self.page@) =~= behind(held).push(c));
            }
            assert(behind(self.page@) =~= beyond(before.push(c), asked.offset()));
        }
        taken.go_on
    }

    /// The answer, once every candidate was offered or no more are wanted.
    pub fn finish(self, answered: Answered) -> (answer: Result<Json, ApiError>)
        requires
            self.wf(),
        ensures
            match answer {
                Err(e) => self.asked().reorders() && first_unsortable(
                    matching(self.given()),
                ) is Some && e@ == bad_request(first_unsortable(matching(self.given()))->0),
                Ok(body) => {
                    &&& self.asked().reorders() ==> first_unsortable(
                        matching(self.given()),
                    ) is None
                    &&& exists|stats: QueryStats| #[trigger]
                        tells(stats, answered, self.looked_at(), self.found()) && body@
                            == JsonView::Object(
                            page_body(
                                self.asked(),
                                page_from(self.asked(), self.given()),
                                stats,
                            ),
                        )
                },
            },
    {
        let ghost asked = self.asked@;
        let ghost given = self.reader.given();
        match &self.unsortable {
            Some(why) => {
                if self.plan.reorders {
                    return Err(ApiError::bad_request(why.as_str()));
                }
            },
            None => {},
        }
        let stats = self.reader.finish(answered);
        assert(tells(stats, answered, self.looked_at(), self.found()));
        let page = if self.plan.reorders {
            proof {
                the_window_is_the_front_of_the_full_sort(
                    asked.sort_directions(),
                    matching(given),
                    asked.needed(),
                );
            }
            drop_front(self.top.into_sorted(), self.plan.skip)
        } else {
            self.page
        };
        assert(behind(page@) == page_from(asked, given));
        let continuable = self.plan.skip == 0 && !self.plan.reorders;
        let body = build_page(&self.params, self.plan.limit, continuable, &page, &stats);
        assert(body@ == JsonView::Object(page_body(asked, page_from(asked, given), stats)));
        Ok(body)
    }
}

/// A page of the matches of a filter.
///
/// A cursor is offered whenever the query could be continued: a short page is
/// the end, a `skip` means the caller is offsetting rather than paging, and a
/// sort other than `_id` ascending would page in a different order from the one
/// asked for. The candidates are read as a [`FindReader`] reads them, and no
/// further than the page needs.
pub fn find(params: FindParams, read: QueryRead, access: &Access) -> (answer: Result<
    Json,
    ApiError,
>)
    requires
        valid_query(params),
        keyed_for(paging(params, read), offered(*access, None)),
    ensures
        ({
            let page = paging(params, read);
            let refused = find_refused(params, read);
            match answer {
                Err(e) => refused == Some(e@) || refused is None && page.reorders()
                    && first_unsortable(matching(offered(*access, None))) is Some && e@
                    == bad_request(first_unsortable(matching(offered(*access, None)))->0),
                Ok(body) => {
                    &&& refused is None
                    &&& page.reorders() ==> first_unsortable(
                        matching(offered(*access, None)),
                    ) is None
                    &&& exists|stats: QueryStats| #[trigger]
                        says(stats, *access, page.bound(), page.stop_after()) && body@
                            == JsonView::Object(
                            page_body(page, page_of(page, *access), stats),
                        )
                },
            }
        }),
{
    let ghost asked = paging(params, read);
    let mut find = match FindReader::start(params, read) {
        Ok(find) => find,
        Err(e) => {
            return Err(e);
        },
    };
    let (after, _) = find.bounds();
    let candidates = offered_candidates(access, after);
    let ghost all = behind(candidates@);
    let mut i: usize = 0;
    let mut go_on = true;
    assert(all == offered(*access, asked.bound()));
    assert(all.take(0) =~= Seq::<Candidate>::empty());
    while i < candidates.len() && go_on
        invariant
            i <= candidates.len(),
            all == behind(candidates@),
            asked.reorders() ==> keyed_for(asked, all),
            find.wf(),
            find.asked() == asked,
            find.given() == all.take(i as int),
            find.looked_at() <= i,
            i > 0 ==> go_on == find.unfinished(),
            i == 0 ==> go_on,
        decreases candidates.len() - i,
    {
        let candidate = candidates[i];
        proof {
            assert(all[i as int] == *candidate);
            assert(all.take(i + 1) =~= all.take(i as int).push(*candidate));
        }
        go_on = find.offer(candidate);
        i = i + 1;
    }
    proof {
        let given = all.take(i as int);
        assert(all =~= given + all.skip(i as int));
        if i < candidates.len() {
            let n = asked.needed();
            super::scan::lemma_visited_push(given, all[i as int], Some(n));
            stopping_loses_nothing(given, all.skip(i as int), n);
        } else {
            assert(given =~= all);
        }
    }
    let answered = answered_by(access);
    let ghost how = answered;
    let answer = find.finish(answered);
    proof {
        if answer is Ok {
            let body = answer->Ok_0;
            let stats = choose|stats: QueryStats| #[trigger]
                tells(stats, how, find.looked_at(), find.found()) && body@ == JsonView::Object(
                    page_body(asked, page_from(asked, find.given()), stats),
                );
            assert(says(stats, *access, asked.bound(), asked.stop_after()));
        }
    }
    answer
}

proof fn lemma_matching_keyed(params: Paging, candidates: Seq<Candidate>)
    requires
        keyed_for(params, candidates),
    ensures
        keyed_for(params, matching(candidates)),
    decreases candidates.len(),
{
    if candidates.len() > 0 && params.reorders() {
        let rest = candidates.skip(1);
        assert(keyed_for(params, rest)) by {
            assert forall|i: int| 0 <= i < rest.len() implies (
            #[trigger] rest[i]).sort_keys@.len() == params.sort_directions().len() by {
                assert(rest[i] == candidates[i + 1]);
            }
        }
        lemma_matching_keyed(params, rest);
        let all = matching(candidates);
        assert forall|i: int| 0 <= i < all.len() implies (#[trigger] all[i]).sort_keys@.len()
            == params.sort_directions().len() by {
            if candidates[0].matches {
                assert(all == seq![candidates[0]] + matching(rest));
                if i > 0 {
                    assert(all[i] == matching(rest)[i - 1]);
                }
            } else {
                assert(all == matching(rest));
            }
        }
    }
}

/// A page's response.
fn build_page<T: Held>(
    params: &Paging,
    limit: usize,
    continuable: bool,
    page: &Vec<T>,
    stats: &QueryStats,
) -> (body: Json)
    requires
        limit == params.page_size(),
        continuable == params.continuable(),
    ensures
        body@ == JsonView::Object(page_body(*params, behind(page@), *stats)),
{
    broadcast use crate::json::json_view;

    let ghost all = behind(page@);
    let mut documents: Vec<Json> = Vec::new();
    let mut stamps: Vec<Json> = Vec::new();
    let mut i: usize = 0;
    while i < page.len()
        invariant
            i <= page.len(),
            all == behind(page@),
            documents@.len() == i,
            stamps@.len() == i,
            forall|k: int|
                0 <= k < i ==> (#[trigger] documents@[k])@ == JsonView::Object(
                    json_of_members(bson_members(all[k].page@)),
                ),
            forall|k: int|
                0 <= k < i ==> (#[trigger] stamps@[k])@ == JsonView::String(all[k].stamp@),
        decreases page.len() - i,
    {
        let candidate = page[i].candidate();
        documents.push(document_to_json(&candidate.page));
        stamps.push(Json::String(candidate.stamp.clone()));
        i = i + 1;
    }
    assert(json_items(documents@) =~= page_documents(all));
    assert(json_items(stamps@) =~= page_stamps(all));
    let count = json_size(page.len());
    let mut body: Vec<(String, Json)> = vec![
        ("documents".to_owned(), Json::Array(documents)),
        ("count".to_owned(), count),
    ];
    let ghost mut view = seq![
        ("documents"@, JsonView::Array(page_documents(all))),
        ("count"@, size(all.len() as usize)),
    ];
    assert(json_members(body@) =~= view);
    if params.stamps {
        body.push(("stamps".to_owned(), Json::Array(stamps)));
        proof {
            view = view.push(("stamps"@, JsonView::Array(page_stamps(all))));
        }
        assert(json_members(body@) =~= view);
    }
    if continuable && page.len() == limit && page.len() > 0 {
        assert(all.last() == page@[page@.len() - 1].item());
        match &page[page.len() - 1].candidate().cursor {
            Some(token) => {
                body.push(("nextCursor".to_owned(), Json::String(token.clone())));
                proof {
                    view = view.push(("nextCursor"@, JsonView::String(token@)));
                }
                assert(json_members(body@) =~= view);
            },
            None => {},
        }
    }
    if params.explain {
        body.push(("explain".to_owned(), stats.to_json()));
        proof {
            view = view.push(("explain"@, JsonView::Object(explained(*stats))));
        }
        assert(json_members(body@) =~= view);
    }
    assert(view == page_body(*params, all, *stats));
    Json::Object(body)
}

/// What a document's id may be.
#[derive(Debug, PartialEq, Eq)]
pub enum DocId {
    ObjectId([u8; 12]),
    Int64(i64),
    String(String),
}

/// What a [`DocId`] holds.
pub enum DocIdView {
    ObjectId(Seq<u8>),
    Int64(i64),
    String(Seq<char>),
}

impl View for DocId {
    type V = DocIdView;

    open spec fn view(&self) -> DocIdView {
        match self {
            DocId::ObjectId(bytes) => DocIdView::ObjectId(bytes@),
            DocId::Int64(n) => DocIdView::Int64(*n),
            DocId::String(s) => DocIdView::String(s@),
        }
    }
}

/// The id a path segment names: twenty-four hexadecimal digits are an object id,
/// a whole number that fits is a number, and anything else is a string.
pub open spec fn id_named(raw: Seq<char>) -> DocIdView {
    match object_id_bytes(raw) {
        Some(bytes) => DocIdView::ObjectId(bytes),
        None => match signed_number(raw) {
            Some(n) => if i64::MIN <= n <= i64::MAX {
                DocIdView::Int64(n as i64)
            } else {
                DocIdView::String(raw)
            },
            None => DocIdView::String(raw),
        },
    }
}

/// Interpret a path segment as a document id. Every segment is one.
pub fn parse_id(raw: &str) -> (id: Result<DocId, ApiError>)
    ensures
        id is Ok,
        id->Ok_0@ == id_named(raw@),
{
    match parse_object_id(raw) {
        Some(bytes) => Ok(DocId::ObjectId(bytes)),
        None => match parse_i64(raw) {
            Some(n) => Ok(DocId::Int64(n)),
            None => Ok(DocId::String(raw.to_owned())),
        },
    }
}

/// The answer to a count.
pub open spec fn count_body(explain: bool, stats: QueryStats) -> Seq<(Seq<char>, JsonView)> {
    if explain {
        seq![("count"@, size(stats.matched)), ("explain"@, JsonView::Object(explained(stats)))]
    } else {
        seq![("count"@, size(stats.matched))]
    }
}

/// Begin a count, or say why it is refused before anything is read. It sees every
/// match.
pub fn start_count(params: &FindParams, refused: Option<CoreError>) -> (count: Result<
    Reader,
    ApiError,
>)
    requires
        valid_part(params.filter),
    ensures
        match count {
            Err(e) => part_refused(params.filter, refused) == Some(e@),
            Ok(reader) => {
                &&& part_refused(params.filter, refused) is None
                &&& reader.wf()
                &&& reader.given() == Seq::<Candidate>::empty()
                &&& reader.stop_after() is None
                &&& reader.bound() is None
            },
        },
{
    match read_part(&params.filter, refused) {
        Ok(_) => Ok(Reader::new(None, None)),
        Err(e) => Err(e),
    }
}

/// The answer to a count, from how the read went.
pub fn counted(explain: bool, stats: &QueryStats) -> (body: Json)
    ensures
        body@ == JsonView::Object(count_body(explain, *stats)),
{
    broadcast use crate::json::json_view;

    let mut body: Vec<(String, Json)> = vec![("count".to_owned(), json_size(stats.matched))];
    if explain {
        body.push(("explain".to_owned(), stats.to_json()));
    }
    assert(json_members(body@) =~= count_body(explain, *stats));
    Json::Object(body)
}

/// A count of the matches: every one is counted as it passes and none is kept.
pub fn count(params: &FindParams, refused: Option<CoreError>, access: &Access) -> (answer: Result<
    Json,
    ApiError,
>)
    requires
        valid_part(params.filter),
    ensures
        match answer {
            Err(e) => part_refused(params.filter, refused) == Some(e@),
            Ok(body) => {
                &&& part_refused(params.filter, refused) is None
                &&& exists|stats: QueryStats| #[trigger]
                    says(stats, *access, None, None) && stats.matched == matching(
                        offered(*access, None),
                    ).len() && body@ == JsonView::Object(count_body(params.explain, stats))
            },
        },
{
    let mut reader = match start_count(params, refused) {
        Ok(reader) => reader,
        Err(e) => {
            return Err(e);
        },
    };
    let candidates = offered_candidates(access, None);
    let ghost all = behind(candidates@);
    let mut i: usize = 0;
    assert(all.take(0) =~= Seq::<Candidate>::empty());
    while i < candidates.len()
        invariant
            i <= candidates.len(),
            all == behind(candidates@),
            reader.wf(),
            reader.stop_after() is None,
            reader.given() == all.take(i as int),
            reader.looked_at() <= i,
        decreases candidates.len() - i,
    {
        let _ = reader.offer(candidates[i]);
        assert(all.take(i + 1) =~= all.take(i as int).push(all[i as int]));
        i = i + 1;
    }
    assert(all.take(i as int) =~= all);
    let stats = reader.finish(answered_by(access));
    assert(says(stats, *access, None, None));
    Ok(counted(params.explain, &stats))
}

/// One document and its stamp, from what the store holds under the id; or that
/// there is none.
pub fn get_doc_stamped(id: &str, found: Option<(String, &Document)>) -> (answer: Result<
    (String, Json),
    ApiError,
>)
    ensures
        match (answer, found) {
            (Ok((stamp, doc)), Some((s, d))) => stamp == s && doc@ == JsonView::Object(
                json_of_members(bson_members(d@)),
            ),
            (Err(e), None) => e@ == not_found("no document with _id "@ + id@),
            _ => false,
        },
{
    match found {
        Some((stamp, doc)) => Ok((stamp, document_to_json(doc))),
        None => {
            let mut text = "no document with _id ".to_owned();
            text.append(id);
            Err(ApiError::not_found(text.as_str()))
        },
    }
}

/// One document, from what the store holds under the id.
pub fn get_doc(id: &str, found: Option<(String, &Document)>) -> (answer: Result<Json, ApiError>)
    ensures
        match (answer, found) {
            (Ok(doc), Some((s, d))) => doc@ == JsonView::Object(
                json_of_members(bson_members(d@)),
            ),
            (Err(e), None) => e@ == not_found("no document with _id "@ + id@),
            _ => false,
        },
{
    match get_doc_stamped(id, found) {
        Ok((_, doc)) => Ok(doc),
        Err(e) => Err(e),
    }
}

/// A page is never longer than it may be.
pub proof fn a_page_is_bounded(params: Paging, access: Access)
    ensures
        page_of(params, access).len() <= params.page_size() <= MAX_LIMIT,
{
    if params.reorders() {
    } else {
        super::scan::a_bound_keeps_the_first_matches(
            offered(access, params.resume()),
            params.needed(),
        );
    }
}

/// A sorted page holds nothing but what the full sort would put there: the
/// matches from `skip` on, as many as the limit.
pub proof fn a_sorted_page_is_the_page_of_the_full_sort(params: Paging, access: Access)
    requires
        params.refused() is None,
        params.reorders(),
    ensures
        ({
            let all = sorted(params.sort_directions(), matching(offered(access, None)));
            page_of(params, access) == at_most(beyond(all, params.offset()), params.page_size())
        }),
{
    let all = sorted(params.sort_directions(), matching(offered(access, None)));
    assert(params.needed() == params.offset() + params.page_size());
    assert(page_of(params, access) =~= at_most(
        beyond(all, params.offset()),
        params.page_size(),
    ));
}

/// A page that a cursor can continue is one page of the walk that following
/// cursors makes, from the key its own cursor decoded to. Its response carries a
/// cursor exactly where the page is full and not empty, and its last document has
/// a token: whatever the page shows of that document.
pub proof fn a_continuable_page_is_a_step_of_the_walk(params: Paging, access: Access)
    requires
        params.continuable(),
    ensures
        page_of(params, access) == super::scan::page_past(
            access,
            params.resume(),
            params.page_size(),
        ),
        next_token(params, page_of(params, access)) is Some <==> params.page_size() > 0
            && page_of(params, access).len() == params.page_size() && page_of(
            params,
            access,
        ).last().cursor is Some,
{
    let page = visited_of(offered(access, params.resume()), Some(params.needed()));
    assert(page.skip(0) =~= page);
}

/// A page carries a cursor exactly where it starts at the start of its order, that
/// order is the keys', it is full and not empty, and its last document has a
/// token: an offset pages by itself, and a sort other than `_id` ascending would
/// page in another order than the one asked for.
pub proof fn only_a_page_in_key_order_is_continued(params: Paging, page: Seq<Candidate>)
    ensures
        next_token(params, page) is Some <==> params.offset() == 0 && (params.sort@.len() == 0
            || id_ascending(params.sort@)) && page.len() == params.page_size()
            && params.page_size() > 0 && page.last().cursor is Some,
{
}

/// Whether these are one walk: each page after the first resumes after the last
/// document of the page before it, which carried a cursor, and all are of one
/// size.
pub open spec fn one_walk(pages: Seq<Paging>, access: Access) -> bool {
    &&& forall|i: int|
        0 <= i < pages.len() ==> (#[trigger] pages[i]).continuable() && pages[i].page_size()
            == pages[0].page_size()
    &&& forall|i: int, j: int|
        0 <= i && j == i + 1 && j < pages.len() ==> continues(
            #[trigger] pages[i],
            #[trigger] pages[j],
            access,
        )
}

/// Whether a request is the one before it with the cursor that its page carried.
pub open spec fn continues(before: Paging, next: Paging, access: Access) -> bool {
    let page = page_of(before, access);
    next_token(before, page) is Some && next.resume() == Some(page.last().key@)
}

/// What the pages of a walk return, one behind the other.
pub open spec fn returned(pages: Seq<Paging>, access: Access) -> Seq<Candidate>
    decreases pages.len(),
{
    if pages.len() == 0 {
        Seq::empty()
    } else {
        page_of(pages[0], access) + returned(pages.drop_first(), access)
    }
}

/// Whether every match has a token to resume after it.
pub open spec fn resumable(matches: Seq<Candidate>) -> bool {
    forall|i: int| 0 <= i < matches.len() ==> (#[trigger] matches[i]).cursor is Some
}

/// Repeating a find with each cursor it returns, until a page carries none,
/// returns every match past the first request's cursor exactly once, in the order
/// of the keys. A walk never has more pages than there are matches, and one.
pub proof fn a_walk_returns_every_match_once(pages: Seq<Paging>, access: Access)
    requires
        in_key_order(access),
        one_walk(pages, access),
        pages.len() > 0,
        pages[0].page_size() > 0,
        resumable(matching(offered(access, pages[0].resume()))),
    ensures
        pages.len() <= matching(offered(access, pages[0].resume())).len() + 1,
        next_token(pages.last(), page_of(pages.last(), access)) is None ==> {
            &&& returned(pages, access) == matching(offered(access, pages[0].resume()))
            &&& ascending(returned(pages, access))
        },
    decreases pages.len(),
{
    let first = pages[0];
    let page = page_of(first, access);
    let all = matching(offered(access, first.resume()));
    lemma_step(first, access);
    let rest = pages.drop_first();
    if pages.len() == 1 {
        assert(returned(rest, access) =~= Seq::<Candidate>::empty());
        assert(page + Seq::<Candidate>::empty() =~= page);
    } else {
        assert(continues(pages[0], pages[1], access));
        assert(rest[0] == pages[1]);
        let after = matching(offered(access, rest[0].resume()));
        assert(after == all.skip(page.len() as int));
        assert forall|i: int| 0 <= i < after.len() implies (#[trigger] after[i]).cursor is Some by {
            assert(after[i] == all[page.len() + i]);
        }
        assert(one_walk(rest, access)) by {
            assert forall|i: int, j: int| 0 <= i && j == i + 1 && j < rest.len() implies continues(
                #[trigger] rest[i],
                #[trigger] rest[j],
                access,
            ) by {
                assert(rest[i] == pages[i + 1]);
                assert(rest[j] == pages[j + 1]);
            }
            assert forall|i: int| 0 <= i < rest.len() implies (#[trigger] rest[i]).continuable()
                && rest[i].page_size() == rest[0].page_size() by {
                assert(rest[i] == pages[i + 1]);
            }
        }
        a_walk_returns_every_match_once(rest, access);
        assert(rest.last() == pages.last());
        assert(page + all.skip(page.len() as int) =~= all);
    }
}

/// One page of a walk, its cursor, and what follows it.
proof fn lemma_step(params: Paging, access: Access)
    requires
        in_key_order(access),
        params.continuable(),
        params.page_size() > 0,
        resumable(matching(offered(access, params.resume()))),
    ensures
        ({
            let all = matching(offered(access, params.resume()));
            let page = page_of(params, access);
            &&& page.len() <= all.len()
            &&& ascending(all)
            &&& next_token(params, page) is None ==> page == all
            &&& next_token(params, page) is Some ==> page.len() > 0 && page == all.take(
                page.len() as int,
            ) && matching(offered(access, Some(page.last().key@))) == all.skip(page.len() as int)
        }),
{
    a_continuable_page_is_a_step_of_the_walk(params, access);
    resuming_after_a_page_gives_what_follows_it(access, params.resume(), params.page_size());
    let all = matching(offered(access, params.resume()));
    let page = page_of(params, access);
    if page.len() > 0 {
        assert(page.last() == all[page.len() - 1]);
        assert(page =~= all.take(page.len() as int));
    }
    if page.len() < params.page_size() {
        assert(page == all);
    }
}

} // verus!
