//! The one read scan: which candidates a read looks at, which of them it hands
//! on, and how it says it went about it.
//!
//! An access path only narrows the candidates. Every one is re-checked against
//! the whole filter, because an index answers "might match" and only the filter
//! decides.

use vstd::prelude::*;
use vstd::string::*;

use super::order::{bytes_rank, Rank};
use crate::json::{json_members, Document, Json, JsonNumber, JsonView};

verus! {

/// A stored document that a read looks at, with what the query makes of it.
#[derive(Debug)]
pub struct Candidate {
    /// The encoded document key.
    pub key: Vec<u8>,
    pub stamp: String,
    /// Whether the whole filter matches it.
    pub matches: bool,
    /// Why the order has no position for it, where it has none.
    pub unsortable: Option<String>,
    /// Its sort keys, in bytes that order as they do.
    pub sort_keys: Vec<Vec<u8>>,
    /// The token that resumes after it, where its `_id` gives one.
    pub cursor: Option<String>,
    /// What of it a page returns.
    pub page: Document,
}

/// The order a read wants its matches in.
#[derive(Clone, Copy, Debug)]
pub enum Order<'a> {
    /// `_id` ascending, resuming strictly after an encoded document key.
    ById { after: Option<&'a Vec<u8>> },
    /// Whichever order the access path finds cheapest.
    Any,
}

impl<'a> Order<'a> {
    /// The key a read resumes after.
    pub open spec fn bound(self) -> Option<Seq<u8>> {
        match self {
            Order::ById { after: Some(key) } => Some(key@),
            _ => None,
        }
    }
}

/// One primary-key read: the key, and the document under it.
#[derive(Debug)]
pub struct Probe {
    pub key: Vec<u8>,
    pub found: Option<Candidate>,
}

/// How much of an index a scan read.
#[derive(Clone, Copy, Debug, PartialEq, Eq, Structural)]
pub struct IndexRead {
    pub entries: usize,
    pub unkeyed: usize,
    pub undecidable: usize,
}

/// An index chosen for a filter, and what scanning it gave.
#[derive(Debug)]
pub struct IndexScan {
    pub name: String,
    pub fields_used: usize,
    /// Ranges scanned.
    pub ranges: usize,
    /// None where the plan was found stale when the scan opened: nothing was
    /// read of the index then, and the collection is scanned instead.
    pub read: Option<IndexRead>,
    pub candidates: Vec<Candidate>,
}

/// The access path a filter is answered by.
#[derive(Debug)]
pub enum Access {
    /// The filter pins `_id`.
    Keys(Vec<Probe>),
    /// An index, and the collection's records in case its plan was stale.
    Index { scan: IndexScan, records: Vec<Candidate> },
    /// The collection's records.
    Scan(Vec<Candidate>),
}

/// How a query was answered, for `explain`.
#[derive(Debug, PartialEq, Eq)]
pub struct QueryStats {
    pub index: Option<String>,
    pub fields_used: usize,
    pub examined: usize,
    pub matched: usize,
    /// Index ranges scanned: 1 for a plain index plan, several for a union, 0
    /// for a collection scan.
    pub probes: usize,
    /// Index entries read, when an index was consulted.
    pub index_entries: Option<usize>,
    /// Of those, the ones read from the index's unkeyed run: documents the
    /// index could not key, which every scan of it rechecks.
    pub unkeyed: Option<usize>,
    /// Of those, the ones read from the index's undecidable run: documents held
    /// because a partial filter could not decide them.
    pub undecidable: Option<usize>,
    /// Whether the filter pinned `_id` and was answered by primary-key reads.
    pub id_lookup: bool,
}

/// A count in JSON.
pub open spec fn size(n: usize) -> JsonView {
    JsonView::Number(JsonNumber::PosInt(n as u64))
}

/// A count in JSON.
pub fn json_size(n: usize) -> (v: Json)
    ensures
        v@ == size(n),
{
    Json::Number(JsonNumber::PosInt(n as u64))
}

/// The name of how a query was answered.
pub open spec fn strategy(s: QueryStats) -> Seq<char> {
    if s.id_lookup {
        "idLookup"@
    } else if s.index is None {
        "collectionScan"@
    } else if s.probes > 1 {
        "indexUnion"@
    } else {
        "index"@
    }
}

/// A field of an explanation that is there only where it says something.
pub open spec fn optional_size(
    fields: Seq<(Seq<char>, JsonView)>,
    name: Seq<char>,
    n: Option<usize>,
) -> Seq<(Seq<char>, JsonView)> {
    match n {
        Some(n) => fields.push((name, size(n))),
        None => fields,
    }
}

/// The fields every explanation has.
pub open spec fn explained_always(s: QueryStats) -> Seq<(Seq<char>, JsonView)> {
    seq![
        ("strategy"@, JsonView::String(strategy(s))),
        (
            "index"@,
            match s.index {
                Some(name) => JsonView::String(name@),
                None => JsonView::Null,
            },
        ),
        ("indexFieldsUsed"@, size(s.fields_used)),
        ("documentsExamined"@, size(s.examined)),
        ("documentsMatched"@, size(s.matched)),
    ]
}

/// An explanation's fields.
pub open spec fn explained(s: QueryStats) -> Seq<(Seq<char>, JsonView)> {
    let fields = explained_always(s);
    let fields = if s.probes > 1 {
        fields.push(("probes"@, size(s.probes)))
    } else {
        fields
    };
    let fields = optional_size(fields, "indexEntriesRead"@, s.index_entries);
    let fields = optional_size(fields, "unkeyedCandidates"@, s.unkeyed);
    optional_size(fields, "undecidableCandidates"@, s.undecidable)
}

fn push_optional(fields: &mut Vec<(String, Json)>, name: &str, n: Option<usize>)
    ensures
        json_members(final(fields)@) == optional_size(json_members(old(fields)@), name@, n),
{
    let ghost before = json_members(fields@);
    match n {
        Some(n) => {
            fields.push((name.to_owned(), json_size(n)));
            assert(json_members(fields@) =~= before.push((name@, size(n))));
        },
        None => {},
    }
}

impl QueryStats {
    /// The explanation a response carries.
    pub fn to_json(&self) -> (explain: Json)
        ensures
            explain@ == JsonView::Object(explained(*self)),
    {
        broadcast use crate::json::json_view;

        let strategy = if self.id_lookup {
            "idLookup"
        } else if self.index.is_none() {
            "collectionScan"
        } else if self.probes > 1 {
            // A union of equality probes is a different shape of work from one
            // range scan.
            "indexUnion"
        } else {
            "index"
        };
        let index = match &self.index {
            Some(name) => Json::String(name.clone()),
            None => Json::Null,
        };
        let mut fields: Vec<(String, Json)> = vec![
            ("strategy".to_owned(), Json::String(strategy.to_owned())),
            ("index".to_owned(), index),
            ("indexFieldsUsed".to_owned(), json_size(self.fields_used)),
            ("documentsExamined".to_owned(), json_size(self.examined)),
            ("documentsMatched".to_owned(), json_size(self.matched)),
        ];
        let ghost first = explained_always(*self);
        assert(json_members(fields@) =~= first);
        if self.probes > 1 {
            fields.push(("probes".to_owned(), json_size(self.probes)));
            assert(json_members(fields@) =~= first.push(("probes"@, size(self.probes))));
        }
        push_optional(&mut fields, "indexEntriesRead", self.index_entries);
        push_optional(&mut fields, "unkeyedCandidates", self.unkeyed);
        push_optional(&mut fields, "undecidableCandidates", self.undecidable);
        Json::Object(fields)
    }
}

/// What one candidate came to.
#[derive(Clone, Copy, Debug, PartialEq, Eq, Structural)]
pub struct Taken {
    /// Hand it on.
    pub visit: bool,
    /// Look at another.
    pub go_on: bool,
}

/// The recheck, the count, and the stop: one place, whichever path feeds it.
#[derive(Clone, Copy, Debug, PartialEq, Eq, Structural)]
pub struct Recheck {
    pub stop_after: Option<usize>,
    pub examined: usize,
    pub matched: usize,
}

impl Recheck {
    pub fn new(stop_after: Option<usize>) -> (r: Self)
        ensures
            r == (Recheck { stop_after, examined: 0, matched: 0 }),
    {
        Recheck { stop_after, examined: 0, matched: 0 }
    }

    /// Examine one candidate.
    ///
    /// The bound is checked before the candidate is considered: checked after, a
    /// bound of zero would let the first match through.
    pub fn take(&mut self, matches: bool) -> (taken: Taken)
        requires
            old(self).matched <= old(self).examined < usize::MAX,
        ensures
            old(self).stop_after == Some(old(self).matched) ==> {
                &&& taken == (Taken { visit: false, go_on: false })
                &&& *final(self) == *old(self)
            },
            old(self).stop_after != Some(old(self).matched) ==> {
                &&& taken.visit == matches
                &&& *final(self) == (Recheck {
                    stop_after: old(self).stop_after,
                    examined: (old(self).examined + 1) as usize,
                    matched: (old(self).matched + (if matches {
                        1int
                    } else {
                        0
                    })) as usize,
                })
                &&& taken.go_on == match old(self).stop_after {
                    Some(n) => final(self).matched < n,
                    None => true,
                }
            },
    {
        match self.stop_after {
            Some(n) => {
                if n == self.matched {
                    return Taken { visit: false, go_on: false };
                }
            },
            None => {},
        }
        self.examined = self.examined + 1;
        if matches {
            self.matched = self.matched + 1;
        }
        let go_on = match self.stop_after {
            Some(n) => self.matched < n,
            None => true,
        };
        Taken { visit: matches, go_on }
    }
}

/// How many more matches may be visited once this candidate was.
pub open spec fn left_after(left: Option<nat>, candidate: Candidate) -> Option<nat> {
    match left {
        Some(n) => if candidate.matches {
            Some((n - 1) as nat)
        } else {
            Some(n)
        },
        None => None,
    }
}

/// How many candidates are looked at before `left` more matches were visited,
/// or before they end.
pub open spec fn examined_of(candidates: Seq<Candidate>, left: Option<nat>) -> nat
    decreases candidates.len(),
{
    if candidates.len() == 0 || left == Some(0nat) {
        0
    } else {
        1 + examined_of(candidates.skip(1), left_after(left, candidates[0]))
    }
}

/// The matches visited: in the order the candidates come in, and no more than
/// `left`.
pub open spec fn visited_of(candidates: Seq<Candidate>, left: Option<nat>) -> Seq<Candidate>
    decreases candidates.len(),
{
    if candidates.len() == 0 || left == Some(0nat) {
        Seq::empty()
    } else {
        let rest = visited_of(candidates.skip(1), left_after(left, candidates[0]));
        if candidates[0].matches {
            seq![candidates[0]] + rest
        } else {
            rest
        }
    }
}

/// A bound on matches as a number.
pub open spec fn limit_of(stop_after: Option<usize>) -> Option<nat> {
    match stop_after {
        Some(n) => Some(n as nat),
        None => None,
    }
}

/// The matches a scan hands on, and how it went.
pub struct Visit<'a> {
    pub matches: Vec<&'a Candidate>,
    pub stats: QueryStats,
}

/// A candidate, by value where it is handed over and by reference where it is
/// only looked at.
pub trait Held: Sized {
    spec fn item(self) -> Candidate;

    fn candidate(&self) -> (c: &Candidate)
        ensures
            *c == self.item(),
    ;
}

impl Held for Candidate {
    open spec fn item(self) -> Candidate {
        self
    }

    fn candidate(&self) -> (c: &Candidate) {
        self
    }
}

impl<'a> Held for &'a Candidate {
    open spec fn item(self) -> Candidate {
        *self
    }

    fn candidate(&self) -> (c: &Candidate) {
        *self
    }
}

/// The candidates that are held.
pub open spec fn behind<T: Held>(held: Seq<T>) -> Seq<Candidate> {
    Seq::new(held.len(), |i: int| held[i].item())
}

/// Visiting goes on with the next candidate where there is room for another
/// match, and ends where there is none.
pub proof fn lemma_visited_push(candidates: Seq<Candidate>, next: Candidate, left: Option<nat>)
    ensures
        ({
            let before = visited_of(candidates, left);
            let full = left is Some && before.len() >= left->0;
            &&& left is Some ==> before.len() <= left->0
            &&& before.len() <= examined_of(candidates, left) <= candidates.len()
            &&& visited_of(candidates.push(next), left) == (if next.matches && !full {
                before.push(next)
            } else {
                before
            })
            &&& examined_of(candidates.push(next), left) == examined_of(candidates, left) + (
            if full {
                0nat
            } else {
                1
            })
        }),
    decreases candidates.len(),
{
    reveal_with_fuel(visited_of, 2);
    reveal_with_fuel(examined_of, 2);
    let all = candidates.push(next);
    if left == Some(0nat) {
    } else if candidates.len() == 0 {
        assert(all[0] == next);
        assert(all.skip(1) =~= Seq::<Candidate>::empty());
        assert(visited_of(all, left) =~= (if next.matches {
            Seq::<Candidate>::empty().push(next)
        } else {
            Seq::empty()
        }));
    } else {
        let rest = candidates.skip(1);
        lemma_visited_push(rest, next, left_after(left, candidates[0]));
        assert(all.skip(1) =~= rest.push(next));
        assert(all[0] == candidates[0]);
        if candidates[0].matches {
            let tail = visited_of(rest, left_after(left, candidates[0]));
            assert(seq![candidates[0]] + tail.push(next) =~= (seq![candidates[0]] + tail).push(
                next,
            ));
        }
    }
}

/// A read that stopped has lost nothing: where as many matches were visited as
/// may be, no further candidate changes what was visited or examined.
pub proof fn stopping_loses_nothing(given: Seq<Candidate>, more: Seq<Candidate>, n: nat)
    requires
        visited_of(given, Some(n)).len() == n,
    ensures
        visited_of(given + more, Some(n)) == visited_of(given, Some(n)),
        examined_of(given + more, Some(n)) == examined_of(given, Some(n)),
    decreases more.len(),
{
    if more.len() == 0 {
        assert(given + more =~= given);
    } else {
        let before = more.drop_last();
        stopping_loses_nothing(given, before, n);
        lemma_visited_push(given + before, more.last(), Some(n));
        assert((given + before).push(more.last()) =~= given + more);
    }
}

/// Where a read that was answered found its candidates.
#[derive(Debug)]
pub enum Answered {
    /// Under the keys that the filter pinned `_id` to.
    Keys { probes: usize },
    Index { name: String, fields_used: usize, ranges: usize, read: IndexRead },
    /// In the collection's records.
    Scan,
}

/// Whether `s` says how a read went that was answered in this way.
pub open spec fn tells(s: QueryStats, answered: Answered, examined: nat, matched: nat) -> bool {
    &&& s.examined == examined
    &&& s.matched == matched
    &&& s.id_lookup == (answered is Keys)
    &&& match answered {
        Answered::Index { name, fields_used, ranges, read } => {
            &&& s.index is Some && s.index->0@ == name@
            &&& s.fields_used == fields_used
            &&& s.probes == ranges
            &&& s.index_entries == Some(read.entries)
            &&& s.unkeyed == Some(read.unkeyed)
            &&& s.undecidable == Some(read.undecidable)
        },
        _ => {
            &&& s.index is None
            &&& s.fields_used == 0
            &&& s.probes == (match answered {
                Answered::Keys { probes } => probes,
                _ => 0,
            })
            &&& s.index_entries is None && s.unkeyed is None && s.undecidable is None
        },
    }
}

/// The one read scan, a candidate at a time: whoever reads the store offers each
/// candidate as it comes and stops where it is told to, so what a read holds is
/// decided by who holds on to the matches.
pub struct Reader {
    recheck: Recheck,
    after: Option<Vec<u8>>,
    given: Ghost<Seq<Candidate>>,
}

impl Reader {
    /// What has been offered so far.
    pub closed spec fn given(self) -> Seq<Candidate> {
        self.given@
    }

    /// After how many matches the read stops.
    pub closed spec fn stop_after(self) -> Option<usize> {
        self.recheck.stop_after
    }

    /// The key the read resumes after.
    pub closed spec fn bound(self) -> Option<Seq<u8>> {
        key_after(self.after)
    }

    pub closed spec fn wf(self) -> bool {
        &&& self.recheck.examined == self.looked_at()
        &&& self.recheck.matched == self.visited().len()
        &&& self.visited().len() <= self.looked_at()
        &&& self.stop_after() matches Some(n) ==> self.visited().len() <= n
    }

    /// The matches handed on so far.
    pub open spec fn visited(self) -> Seq<Candidate> {
        visited_of(self.given(), limit_of(self.stop_after()))
    }

    /// How many candidates were examined so far.
    pub open spec fn looked_at(self) -> nat {
        examined_of(self.given(), limit_of(self.stop_after()))
    }

    /// Whether another match may be handed on.
    pub open spec fn has_room(self) -> bool {
        match self.stop_after() {
            Some(n) => self.visited().len() < n,
            None => true,
        }
    }

    /// A read that resumes strictly after `after` and stops once `stop_after`
    /// matches were handed on.
    pub fn new(after: Option<Vec<u8>>, stop_after: Option<usize>) -> (reader: Self)
        ensures
            reader.wf(),
            reader.given() == Seq::<Candidate>::empty(),
            reader.stop_after() == stop_after,
            reader.bound() == key_after(after),
    {
        Reader { recheck: Recheck::new(stop_after), after, given: Ghost(Seq::empty()) }
    }

    /// Whether a document under this key comes after the one the read resumes
    /// from. One that does not is not offered.
    pub fn wants(&self, key: &Vec<u8>) -> (b: bool)
        ensures
            b == past(self.bound(), key@),
    {
        resumes_past(self.after.as_ref(), key)
    }

    /// How many candidates were examined so far.
    pub fn examined(&self) -> (n: usize)
        requires
            self.wf(),
        ensures
            n == self.looked_at(),
    {
        self.recheck.examined
    }

    /// How many matches were handed on so far.
    pub fn matched(&self) -> (n: usize)
        requires
            self.wf(),
        ensures
            n == self.visited().len(),
    {
        self.recheck.matched
    }

    /// The key the read resumes after.
    pub fn after(&self) -> (after: Option<&Vec<u8>>)
        ensures
            (match after {
                Some(k) => Some(k@),
                None => None::<Seq<u8>>,
            }) == self.bound(),
    {
        self.after.as_ref()
    }

    /// How many matches the read wants, where it is bounded.
    pub fn limit(&self) -> (n: Option<usize>)
        ensures
            n == self.stop_after(),
    {
        self.recheck.stop_after
    }

    /// Offer the next candidate: whether it is a match to hand on, and whether to
    /// go on.
    pub fn offer(&mut self, candidate: &Candidate) -> (taken: Taken)
        requires
            old(self).wf(),
            old(self).looked_at() < usize::MAX,
        ensures
            final(self).wf(),
            final(self).given() == old(self).given().push(*candidate),
            final(self).stop_after() == old(self).stop_after(),
            final(self).bound() == old(self).bound(),
            taken.visit == (candidate.matches && old(self).has_room()),
            taken.go_on == final(self).has_room(),
            final(self).visited() == (if taken.visit {
                old(self).visited().push(*candidate)
            } else {
                old(self).visited()
            }),
            final(self).looked_at() == old(self).looked_at() + (if old(self).has_room() {
                1nat
            } else {
                0
            }),
    {
        proof {
            lemma_visited_push(self.given@, *candidate, limit_of(self.recheck.stop_after));
        }
        let taken = self.recheck.take(candidate.matches);
        self.given = Ghost(self.given@.push(*candidate));
        taken
    }

    /// How the read went.
    pub fn finish(self, answered: Answered) -> (stats: QueryStats)
        requires
            self.wf(),
        ensures
            tells(stats, answered, self.looked_at(), self.visited().len()),
    {
        let (examined, matched) = (self.recheck.examined, self.recheck.matched);
        match answered {
            Answered::Index { name, fields_used, ranges, read } => QueryStats {
                index: Some(name),
                fields_used,
                examined,
                matched,
                probes: ranges,
                index_entries: Some(read.entries),
                unkeyed: Some(read.unkeyed),
                undecidable: Some(read.undecidable),
                id_lookup: false,
            },
            Answered::Keys { probes } => QueryStats {
                index: None,
                fields_used: 0,
                examined,
                matched,
                probes,
                index_entries: None,
                unkeyed: None,
                undecidable: None,
                id_lookup: true,
            },
            Answered::Scan => QueryStats {
                index: None,
                fields_used: 0,
                examined,
                matched,
                probes: 0,
                index_entries: None,
                unkeyed: None,
                undecidable: None,
                id_lookup: false,
            },
        }
    }
}

/// A key that a read resumes after, as bytes.
pub open spec fn key_after(after: Option<Vec<u8>>) -> Option<Seq<u8>> {
    match after {
        Some(key) => Some(key@),
        None => None,
    }
}

/// Whether a key comes after the bound a read resumes from.
pub open spec fn past(bound: Option<Seq<u8>>, key: Seq<u8>) -> bool {
    match bound {
        Some(after) => bytes_rank(key, after) == Rank::Second,
        None => true,
    }
}

/// The documents under the first `n` probed keys that come after the bound. A
/// key naming no document is an ordinary miss.
pub open spec fn probed(probes: Seq<Probe>, bound: Option<Seq<u8>>, n: nat) -> Seq<Candidate>
    decreases n,
{
    if n == 0 {
        Seq::empty()
    } else {
        let before = probed(probes, bound, (n - 1) as nat);
        match probes[n - 1].found {
            Some(candidate) => if past(bound, probes[n - 1].key@) {
                before.push(candidate)
            } else {
                before
            },
            None => before,
        }
    }
}

fn resumes_past(after: Option<&Vec<u8>>, key: &Vec<u8>) -> (b: bool)
    ensures
        b == past(
            match after {
                Some(k) => Some(k@),
                None => None::<Seq<u8>>,
            },
            key@,
        ),
{
    match after {
        Some(bound) => match super::order::compare_bytes(key.as_slice(), bound.as_slice()) {
            Rank::Second => true,
            _ => false,
        },
        None => true,
    }
}

fn probed_candidates<'a>(probes: &'a Vec<Probe>, after: Option<&Vec<u8>>) -> (found: Vec<
    &'a Candidate,
>)
    ensures
        behind(found@) == probed(
            probes@,
            match after {
                Some(k) => Some(k@),
                None => None::<Seq<u8>>,
            },
            probes@.len(),
        ),
{
    let ghost bound = match after {
        Some(k) => Some(k@),
        None => None::<Seq<u8>>,
    };
    let mut found: Vec<&Candidate> = Vec::new();
    let mut i: usize = 0;
    assert(behind(found@) =~= Seq::<Candidate>::empty());
    while i < probes.len()
        invariant
            i <= probes.len(),
            bound == (match after {
                Some(k) => Some(k@),
                None => None::<Seq<u8>>,
            }),
            behind(found@) == probed(probes@, bound, i as nat),
        decreases probes.len() - i,
    {
        match &probes[i].found {
            Some(candidate) => {
                if resumes_past(after, &probes[i].key) {
                    let ghost before = found@;
                    found.push(candidate);
                    assert(behind(found@) =~= behind(before).push(*candidate));
                }
            },
            None => {},
        }
        i = i + 1;
    }
    found
}

/// Walk candidates, handing on the matches until the bound on them is reached.
fn walk<'a>(candidates: &Vec<&'a Candidate>, stop_after: Option<usize>) -> (walked: (
    Vec<&'a Candidate>,
    Reader,
))
    ensures
        behind(walked.0@) == visited_of(behind(candidates@), limit_of(stop_after)),
        walked.1.wf(),
        walked.1.looked_at() == examined_of(behind(candidates@), limit_of(stop_after)),
        walked.1.visited() == behind(walked.0@),
{
    let ghost all = behind(candidates@);
    let mut reader = Reader::new(None, stop_after);
    let mut matches: Vec<&'a Candidate> = Vec::new();
    let mut i: usize = 0;
    let mut go_on = true;
    assert(behind(matches@) =~= Seq::<Candidate>::empty());
    assert(all.take(0) =~= Seq::<Candidate>::empty());
    while i < candidates.len() && go_on
        invariant
            i <= candidates.len(),
            all == behind(candidates@),
            reader.wf(),
            reader.stop_after() == stop_after,
            reader.given() == all.take(i as int),
            reader.looked_at() <= i,
            behind(matches@) == reader.visited(),
            i > 0 ==> go_on == reader.has_room(),
            i == 0 ==> go_on,
        decreases candidates.len() - i,
    {
        let candidate = candidates[i];
        let ghost before = matches@;
        let taken = reader.offer(candidate);
        if taken.visit {
            matches.push(candidate);
            assert(behind(matches@) =~= behind(before).push(*candidate));
        }
        go_on = taken.go_on;
        assert(all.take(i + 1) =~= all.take(i as int).push(*candidate));
        i = i + 1;
    }
    proof {
        let given = all.take(i as int);
        assert(all =~= given + all.skip(i as int));
        if i < candidates.len() {
            let n = stop_after->0 as nat;
            lemma_visited_push(given, all[i as int], Some(n));
            stopping_loses_nothing(given, all.skip(i as int), n);
        } else {
            assert(given =~= all);
        }
    }
    (matches, reader)
}

/// The first `n` records that come after the bound.
pub open spec fn records_past(
    records: Seq<Candidate>,
    bound: Option<Seq<u8>>,
    n: nat,
) -> Seq<Candidate>
    decreases n,
{
    if n == 0 {
        Seq::empty()
    } else {
        let before = records_past(records, bound, (n - 1) as nat);
        if past(bound, records[n - 1].key@) {
            before.push(records[n - 1])
        } else {
            before
        }
    }
}

fn past_records<'a>(records: &'a Vec<Candidate>, after: Option<&Vec<u8>>) -> (found: Vec<
    &'a Candidate,
>)
    ensures
        behind(found@) == records_past(
            records@,
            match after {
                Some(k) => Some(k@),
                None => None::<Seq<u8>>,
            },
            records@.len(),
        ),
{
    let ghost bound = match after {
        Some(k) => Some(k@),
        None => None::<Seq<u8>>,
    };
    let mut found: Vec<&Candidate> = Vec::new();
    let mut i: usize = 0;
    assert(behind(found@) =~= Seq::<Candidate>::empty());
    while i < records.len()
        invariant
            i <= records.len(),
            bound == (match after {
                Some(k) => Some(k@),
                None => None::<Seq<u8>>,
            }),
            behind(found@) == records_past(records@, bound, i as nat),
        decreases records.len() - i,
    {
        if resumes_past(after, &records[i].key) {
            let ghost before = found@;
            found.push(&records[i]);
            assert(behind(found@) =~= behind(before).push(records@[i as int]));
        }
        i = i + 1;
    }
    found
}

/// The candidates an access path offers past a bound, in the order it offers
/// them.
pub open spec fn offered(access: Access, bound: Option<Seq<u8>>) -> Seq<Candidate> {
    match access {
        Access::Keys(probes) => probed(probes@, bound, probes@.len()),
        Access::Index { scan, records } => if scan.read is Some {
            records_past(scan.candidates@, bound, scan.candidates@.len())
        } else {
            records_past(records@, bound, records@.len())
        },
        Access::Scan(records) => records_past(records@, bound, records@.len()),
    }
}

/// Whether `s` says how a scan over an access path went.
pub open spec fn says(
    s: QueryStats,
    access: Access,
    bound: Option<Seq<u8>>,
    stop_after: Option<usize>,
) -> bool {
    &&& s.examined == examined_of(offered(access, bound), limit_of(stop_after))
    &&& s.matched == visited_of(offered(access, bound), limit_of(stop_after)).len()
    &&& s.id_lookup == (access is Keys)
    &&& match access {
        Access::Keys(probes) => {
            &&& s.index is None
            &&& s.fields_used == 0
            &&& s.probes == probes@.len()
            &&& s.index_entries is None && s.unkeyed is None && s.undecidable is None
        },
        Access::Index { scan, records } if scan.read is Some => {
            &&& s.index is Some && s.index->0@ == scan.name@
            &&& s.fields_used == scan.fields_used
            &&& s.probes == scan.ranges
            &&& s.index_entries == Some(scan.read->0.entries)
            &&& s.unkeyed == Some(scan.read->0.unkeyed)
            &&& s.undecidable == Some(scan.read->0.undecidable)
        },
        _ => {
            &&& s.index is None
            &&& s.fields_used == 0
            &&& s.probes == 0
            &&& s.index_entries is None && s.unkeyed is None && s.undecidable is None
        },
    }
}

/// The one read scan, over the access path a filter is answered by: the primary
/// key where the filter pins `_id`, an index where one applies, and otherwise
/// the collection. Every match is handed on as it is found, and `stop_after`
/// ends the scan once that many have been.
pub fn visit_matching<'a>(
    access: &'a Access,
    order: Order<'_>,
    stop_after: Option<usize>,
) -> (visit: Visit<'a>)
    ensures
        behind(visit.matches@) == visited_of(
            offered(*access, order.bound()),
            limit_of(stop_after),
        ),
        says(visit.stats, *access, order.bound(), stop_after),
{
    let after = match order {
        Order::ById { after } => after,
        Order::Any => None,
    };
    let (matches, reader) = walk(&offered_candidates(access, after), stop_after);
    assert(behind(matches@).len() == matches@.len());
    Visit { matches, stats: reader.finish(answered_by(access)) }
}

/// The candidates an access path offers past a bound.
pub fn offered_candidates<'a>(access: &'a Access, after: Option<&Vec<u8>>) -> (found: Vec<
    &'a Candidate,
>)
    ensures
        behind(found@) == offered(
            *access,
            match after {
                Some(k) => Some(k@),
                None => None::<Seq<u8>>,
            },
        ),
{
    match access {
        Access::Keys(probes) => probed_candidates(probes, after),
        Access::Index { scan, records } => match scan.read {
            Some(_) => past_records(&scan.candidates, after),
            // The plan was stale: the honest answer is to scan the collection.
            None => past_records(records, after),
        },
        Access::Scan(records) => past_records(records, after),
    }
}

/// How a read over an access path is answered.
pub fn answered_by(access: &Access) -> (answered: Answered)
    ensures
        forall|s: QueryStats, bound: Option<Seq<u8>>, stop_after: Option<usize>|
            #![trigger says(s, *access, bound, stop_after)]
            says(s, *access, bound, stop_after) <==> tells(
                s,
                answered,
                examined_of(offered(*access, bound), limit_of(stop_after)),
                visited_of(offered(*access, bound), limit_of(stop_after)).len(),
            ),
{
    match access {
        Access::Keys(probes) => Answered::Keys { probes: probes.len() },
        Access::Index { scan, .. } => match scan.read {
            Some(read) => Answered::Index {
                name: scan.name.clone(),
                fields_used: scan.fields_used,
                ranges: scan.ranges,
                read,
            },
            None => Answered::Scan,
        },
        Access::Scan(_) => Answered::Scan,
    }
}

/// The access path of a read, from what the store gave of each: the primary key
/// where the filter pins `_id`, an index where one applies, and otherwise the
/// collection.
pub fn access_of(
    primary_key: Option<Vec<Probe>>,
    index: Option<IndexScan>,
    records: Vec<Candidate>,
) -> (access: Access)
    ensures
        access == chosen_access(primary_key, index, records),
{
    match primary_key {
        Some(probes) => Access::Keys(probes),
        None => match index {
            Some(scan) => Access::Index { scan, records },
            None => Access::Scan(records),
        },
    }
}

/// The access path a read takes: the first of the primary key, an index and the
/// collection that there is.
pub open spec fn chosen_access(
    primary_key: Option<Vec<Probe>>,
    index: Option<IndexScan>,
    records: Vec<Candidate>,
) -> Access {
    if primary_key is Some {
        Access::Keys(primary_key->0)
    } else if index is Some {
        Access::Index { scan: index->0, records }
    } else {
        Access::Scan(records)
    }
}

/// All the matches among candidates, in order.
pub open spec fn matching(candidates: Seq<Candidate>) -> Seq<Candidate> {
    visited_of(candidates, None)
}

/// Stopping only stops: the matches visited under a bound are the first of all
/// the matches, as many as the bound, and none under a bound of zero. Every
/// match handed on matches the filter.
pub proof fn a_bound_keeps_the_first_matches(candidates: Seq<Candidate>, n: nat)
    ensures
        visited_of(candidates, Some(n)) == (if matching(candidates).len() <= n {
            matching(candidates)
        } else {
            matching(candidates).take(n as int)
        }),
        n == 0 ==> examined_of(candidates, Some(n)) == 0,
        forall|i: int|
            0 <= i < matching(candidates).len() ==> (#[trigger] matching(candidates)[i]).matches,
    decreases candidates.len(),
{
    if candidates.len() > 0 {
        let rest = candidates.skip(1);
        a_bound_keeps_the_first_matches(rest, n);
        let all = matching(candidates);
        if n > 0 {
            a_bound_keeps_the_first_matches(rest, (n - 1) as nat);
            if candidates[0].matches {
                assert(all == seq![candidates[0]] + matching(rest));
                assert(visited_of(candidates, Some(n)) == seq![candidates[0]] + visited_of(
                    rest,
                    Some((n - 1) as nat),
                ));
            }
        }
        assert forall|i: int| 0 <= i < all.len() implies (#[trigger] all[i]).matches by {
            if candidates[0].matches {
                if i > 0 {
                    assert(all[i] == matching(rest)[i - 1]);
                }
            } else {
                assert(all[i] == matching(rest)[i]);
            }
        }
        assert(visited_of(candidates, Some(n)) =~= (if all.len() <= n {
            all
        } else {
            all.take(n as int)
        }));
    } else {
        assert(visited_of(candidates, Some(n)) =~= matching(candidates));
    }
}

/// Without a bound every candidate is examined.
pub proof fn an_unbounded_scan_examines_everything(candidates: Seq<Candidate>)
    ensures
        examined_of(candidates, None) == candidates.len(),
    decreases candidates.len(),
{
    if candidates.len() > 0 {
        an_unbounded_scan_examines_everything(candidates.skip(1));
    }
}

/// Gather the documents matching a filter, in `_id` order.
pub fn collect_matching<'a>(access: &'a Access, stop_after: Option<usize>) -> (visit: Visit<'a>)
    ensures
        behind(visit.matches@) == visited_of(offered(*access, None), limit_of(stop_after)),
        says(visit.stats, *access, None, stop_after),
{
    collect_matching_stamped_after(access, stop_after, None)
}

/// [`collect_matching`], resuming strictly after an encoded document key.
pub fn collect_matching_stamped_after<'a>(
    access: &'a Access,
    stop_after: Option<usize>,
    after: Option<&Vec<u8>>,
) -> (visit: Visit<'a>)
    ensures
        ({
            let bound = match after {
                Some(k) => Some(k@),
                None => None::<Seq<u8>>,
            };
            &&& behind(visit.matches@) == visited_of(
                offered(*access, bound),
                limit_of(stop_after),
            )
            &&& says(visit.stats, *access, bound, stop_after)
        }),
{
    visit_matching(access, Order::ById { after }, stop_after)
}

/// Records in the order of their keys, no two under one key.
pub open spec fn ascending(records: Seq<Candidate>) -> bool {
    forall|i: int, j: int|
        0 <= i < j < records.len() ==> bytes_rank(
            #[trigger] records[i].key@,
            #[trigger] records[j].key@,
        ) == Rank::First
}

proof fn lemma_no_bound(records: Seq<Candidate>, n: nat)
    requires
        n <= records.len(),
    ensures
        records_past(records, None, n) == records.take(n as int),
    decreases n,
{
    if n > 0 {
        lemma_no_bound(records, (n - 1) as nat);
        assert(records.take(n as int) =~= records.take(n - 1).push(records[n - 1]));
    } else {
        assert(records.take(0) =~= Seq::<Candidate>::empty());
    }
}

proof fn lemma_past_record(records: Seq<Candidate>, at: int, n: nat)
    requires
        ascending(records),
        0 <= at < records.len(),
        n <= records.len(),
    ensures
        records_past(records, Some(records[at].key@), n) == (if n <= at + 1 {
            Seq::<Candidate>::empty()
        } else {
            records.subrange(at + 1, n as int)
        }),
    decreases n,
{
    if n > 0 {
        lemma_past_record(records, at, (n - 1) as nat);
        let i = n - 1;
        super::order::lemma_bytes_rank(records[i].key@, records[at].key@);
        if i > at {
            assert(bytes_rank(records[at].key@, records[i].key@) == Rank::First);
            super::order::lemma_bytes_rank(records[at].key@, records[i].key@);
            assert(past(Some(records[at].key@), records[i].key@));
            if n == at + 2 {
                assert(records.subrange(at + 1, n as int) =~= seq![records[i]]);
                assert(Seq::<Candidate>::empty().push(records[i]) =~= seq![records[i]]);
            } else {
                assert(records.subrange(at + 1, n as int) =~= records.subrange(
                    at + 1,
                    n - 1,
                ).push(records[i]));
            }
        } else if i < at {
            assert(bytes_rank(records[i].key@, records[at].key@) == Rank::First);
        }
    }
}

/// Whether an access path offers its candidates in the order of their keys, no
/// two under one key: the order that a page is returned in.
pub open spec fn in_key_order(access: Access) -> bool {
    match access {
        Access::Keys(probes) => {
            &&& forall|i: int, j: int|
                0 <= i < j < probes@.len() ==> bytes_rank(
                    #[trigger] probes@[i].key@,
                    #[trigger] probes@[j].key@,
                ) == Rank::First
            &&& forall|i: int|
                0 <= i < probes@.len() && (#[trigger] probes@[i]).found is Some
                    ==> probes@[i].found->0.key@ == probes@[i].key@
        },
        Access::Index { scan, records } => if scan.read is Some {
            ascending(scan.candidates@)
        } else {
            ascending(records@)
        },
        Access::Scan(records) => ascending(records@),
    }
}

proof fn lemma_probed(probes: Seq<Probe>, bound: Option<Seq<u8>>, n: nat)
    requires
        n <= probes.len(),
        forall|i: int, j: int|
            0 <= i < j < probes.len() ==> bytes_rank(
                #[trigger] probes[i].key@,
                #[trigger] probes[j].key@,
            ) == Rank::First,
        forall|i: int|
            0 <= i < probes.len() && (#[trigger] probes[i]).found is Some
                ==> probes[i].found->0.key@ == probes[i].key@,
    ensures
        ({
            let all = probed(probes, None, n);
            &&& probed(probes, bound, n) == records_past(all, bound, all.len())
            &&& ascending(all)
            &&& forall|i: int|
                0 <= i < all.len() ==> exists|k: int|
                    0 <= k < n && (#[trigger] all[i]).key@ == (#[trigger] probes[k]).key@
        }),
    decreases n,
{
    if n > 0 {
        let m = (n - 1) as nat;
        lemma_probed(probes, bound, m);
        let before = probed(probes, None, m);
        let all = probed(probes, None, n);
        if let Some(c) = probes[n - 1].found {
            lemma_past_prefix(before, c, bound, before.len());
            assert forall|i: int, j: int| 0 <= i < j < all.len() implies bytes_rank(
                #[trigger] all[i].key@,
                #[trigger] all[j].key@,
            ) == Rank::First by {
                if j == before.len() {
                    assert(all[i] == before[i]);
                    let k = choose|k: int|
                        0 <= k < m && before[i].key@ == (#[trigger] probes[k]).key@;
                    assert(bytes_rank(probes[k].key@, probes[n - 1].key@) == Rank::First);
                } else {
                    assert(all[i] == before[i] && all[j] == before[j]);
                }
            }
        }
        assert forall|i: int| 0 <= i < all.len() implies exists|k: int|
            0 <= k < n && (#[trigger] all[i]).key@ == (#[trigger] probes[k]).key@ by {
            if i < before.len() {
                assert(all[i] == before[i]);
                let k = choose|k: int| 0 <= k < m && before[i].key@ == (#[trigger] probes[k]).key@;
                assert(all[i].key@ == probes[k].key@);
            } else {
                assert(all[i].key@ == probes[n - 1].key@);
            }
        }
    }
}

proof fn lemma_past_prefix(
    records: Seq<Candidate>,
    next: Candidate,
    bound: Option<Seq<u8>>,
    n: nat,
)
    requires
        n <= records.len(),
    ensures
        records_past(records.push(next), bound, n) == records_past(records, bound, n),
    decreases n,
{
    if n > 0 {
        lemma_past_prefix(records, next, bound, (n - 1) as nat);
        assert(records.push(next)[n - 1] == records[n - 1]);
    }
}

/// What an access path in key order offers past a bound is what it offers
/// without one, past the bound.
proof fn lemma_offered(access: Access, bound: Option<Seq<u8>>)
    requires
        in_key_order(access),
    ensures
        offered(access, bound) == records_past(
            offered(access, None),
            bound,
            offered(access, None).len(),
        ),
        ascending(offered(access, None)),
{
    match access {
        Access::Keys(probes) => {
            lemma_probed(probes@, bound, probes@.len());
        },
        Access::Index { scan, records } => {
            let all = if scan.read is Some {
                scan.candidates@
            } else {
                records@
            };
            lemma_no_bound(all, all.len());
            assert(all.take(all.len() as int) =~= all);
        },
        Access::Scan(records) => {
            lemma_no_bound(records@, records@.len());
            assert(records@.take(records@.len() as int) =~= records@);
        },
    }
}

/// Matching and resuming leave the same whichever is done first.
proof fn lemma_matching_past(candidates: Seq<Candidate>, bound: Option<Seq<u8>>)
    ensures
        matching(records_past(candidates, bound, candidates.len())) == records_past(
            matching(candidates),
            bound,
            matching(candidates).len(),
        ),
    decreases candidates.len(),
{
    if candidates.len() > 0 {
        let before = candidates.drop_last();
        let last = candidates.last();
        lemma_matching_past(before, bound);
        assert(before.push(last) =~= candidates);
        lemma_visited_push(before, last, None);
        lemma_past_prefix(before, last, bound, before.len());
        lemma_visited_push(records_past(before, bound, before.len()), last, None);
        if last.matches {
            lemma_past_prefix(matching(before), last, bound, matching(before).len());
        }
    }
}

proof fn lemma_matching_ascends(candidates: Seq<Candidate>)
    requires
        ascending(candidates),
    ensures
        ascending(matching(candidates)),
        forall|i: int|
            0 <= i < matching(candidates).len() ==> candidates.contains(
                #[trigger] matching(candidates)[i],
            ),
    decreases candidates.len(),
{
    if candidates.len() > 0 {
        let before = candidates.drop_last();
        let last = candidates.last();
        assert(ascending(before)) by {
            assert forall|i: int, j: int| 0 <= i < j < before.len() implies bytes_rank(
                #[trigger] before[i].key@,
                #[trigger] before[j].key@,
            ) == Rank::First by {
                assert(before[i] == candidates[i] && before[j] == candidates[j]);
            }
        }
        lemma_matching_ascends(before);
        assert(before.push(last) =~= candidates);
        lemma_visited_push(before, last, None);
        let rest = matching(before);
        let all = matching(candidates);
        assert forall|i: int| 0 <= i < all.len() implies candidates.contains(#[trigger] all[i]) by {
            if i < rest.len() {
                assert(before.contains(rest[i]));
                let k = choose|k: int| 0 <= k < before.len() && before[k] == rest[i];
                assert(candidates[k] == all[i]);
            } else {
                assert(candidates[candidates.len() - 1] == all[i]);
            }
        }
        assert forall|i: int, j: int| 0 <= i < j < all.len() implies bytes_rank(
            #[trigger] all[i].key@,
            #[trigger] all[j].key@,
        ) == Rank::First by {
            assert(all[i] == rest[i]);
            if j == rest.len() {
                assert(before.contains(rest[i]));
                let k = choose|k: int| 0 <= k < before.len() && before[k] == rest[i];
                assert(bytes_rank(candidates[k].key@, candidates[candidates.len() - 1].key@)
                    == Rank::First);
            } else {
                assert(all[j] == rest[j]);
            }
        }
    }
}

/// What is past a bound, of records in order, is their end.
proof fn lemma_past_is_an_end(records: Seq<Candidate>, bound: Option<Seq<u8>>, n: nat) -> (from: int)
    requires
        ascending(records),
        n <= records.len(),
    ensures
        0 <= from <= n,
        records_past(records, bound, n) == records.subrange(from, n as int),
        forall|i: int| 0 <= i < from ==> !past(bound, (#[trigger] records[i]).key@),
        forall|i: int| from <= i < n ==> past(bound, (#[trigger] records[i]).key@),
    decreases n,
{
    if n == 0 {
        assert(records.subrange(0, 0) =~= Seq::<Candidate>::empty());
        0
    } else {
        let m = (n - 1) as nat;
        let from = lemma_past_is_an_end(records, bound, m);
        let last = records[n - 1];
        if past(bound, last.key@) {
            assert(records.subrange(from, n as int) =~= records.subrange(from, m as int).push(last));
            from
        } else {
            if from < m {
                let before = records[m - 1];
                assert(past(bound, before.key@));
                let key = bound->0;
                super::order::lemma_bytes_rank(before.key@, key);
                super::order::lemma_bytes_rank(last.key@, key);
                assert(bytes_rank(before.key@, last.key@) == Rank::First);
                super::order::lemma_bytes_rank_transitive(key, before.key@, last.key@);
                assert(false);
            }
            assert(records.subrange(m as int, m as int) =~= Seq::<Candidate>::empty());
            assert(records.subrange(n as int, n as int) =~= Seq::<Candidate>::empty());
            n as int
        }
    }
}

/// A page of an access path: its first `n` matches past a bound.
pub open spec fn page_past(access: Access, bound: Option<Seq<u8>>, n: nat) -> Seq<Candidate> {
    visited_of(offered(access, bound), Some(n))
}

/// A page is the first matches past its bound, and resuming after the last
/// document of a full page gives exactly the matches that follow the page, on
/// whichever access path. The matches come in the order of their keys, no two
/// under one key.
pub proof fn resuming_after_a_page_gives_what_follows_it(
    access: Access,
    bound: Option<Seq<u8>>,
    n: nat,
)
    requires
        in_key_order(access),
    ensures
        ({
            let all = matching(offered(access, bound));
            let page = page_past(access, bound, n);
            &&& ascending(all)
            &&& page == (if all.len() <= n {
                all
            } else {
                all.take(n as int)
            })
            &&& page.len() > 0 ==> matching(offered(access, Some(page.last().key@))) == all.skip(
                page.len() as int,
            )
        }),
{
    let base = offered(access, None);
    lemma_offered(access, bound);
    lemma_matching_past(base, bound);
    lemma_matching_ascends(base);
    let found = matching(base);
    let from = lemma_past_is_an_end(found, bound, found.len());
    let all = matching(offered(access, bound));
    assert(all == found.subrange(from, found.len() as int));
    assert(ascending(all)) by {
        assert forall|i: int, j: int| 0 <= i < j < all.len() implies bytes_rank(
            #[trigger] all[i].key@,
            #[trigger] all[j].key@,
        ) == Rank::First by {
            assert(all[i] == found[from + i] && all[j] == found[from + j]);
        }
    }
    a_bound_keeps_the_first_matches(offered(access, bound), n);
    let page = page_past(access, bound, n);
    if page.len() > 0 {
        let at = from + page.len() - 1;
        assert(page.last() == found[at]);
        let key = Some(found[at].key@);
        lemma_offered(access, key);
        lemma_matching_past(base, key);
        lemma_past_record(found, at, found.len());
        assert(matching(offered(access, key)) =~= all.skip(page.len() as int));
    }
}

/// What following cursors returns, from a bound on: a page, and where it is full
/// the pages after its last document, for at most this many pages.
pub open spec fn walked(access: Access, bound: Option<Seq<u8>>, n: nat, pages: nat) -> Seq<
    Candidate,
>
    decreases pages,
{
    if pages == 0 {
        Seq::empty()
    } else {
        let page = page_past(access, bound, n);
        if page.len() == n && n > 0 {
            page + walked(access, Some(page.last().key@), n, (pages - 1) as nat)
        } else {
            page
        }
    }
}

/// Whether following cursors comes to a page that is not full, which has no
/// cursor to follow, within this many pages.
pub open spec fn walk_ends(access: Access, bound: Option<Seq<u8>>, n: nat, pages: nat) -> bool
    decreases pages,
{
    if pages == 0 {
        false
    } else {
        let page = page_past(access, bound, n);
        page.len() < n || walk_ends(access, Some(page.last().key@), n, (pages - 1) as nat)
    }
}

/// Following cursors returns every match past the bound exactly once, in the
/// order of their keys, and then ends: with pages of `n` it takes no more pages
/// than there are matches, and one.
pub proof fn following_cursors_returns_every_match_once(
    access: Access,
    bound: Option<Seq<u8>>,
    n: nat,
    pages: nat,
)
    requires
        in_key_order(access),
        n > 0,
        pages > matching(offered(access, bound)).len(),
    ensures
        walked(access, bound, n, pages) == matching(offered(access, bound)),
        ascending(walked(access, bound, n, pages)),
        walk_ends(access, bound, n, pages),
    decreases pages,
{
    resuming_after_a_page_gives_what_follows_it(access, bound, n);
    let all = matching(offered(access, bound));
    let page = page_past(access, bound, n);
    if page.len() == n {
        let next = Some(page.last().key@);
        following_cursors_returns_every_match_once(access, next, n, (pages - 1) as nat);
        assert(page + all.skip(n as int) =~= all);
    }
}

} // verus!
