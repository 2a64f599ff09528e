//! The order a sorted read returns its page in, and the window that holds it.
//!
//! A match is ranked by its sort keys, each given as bytes that order as the
//! values do. A sort has to see every match before it knows which come first,
//! but it need not hold every match: the `skip + limit` least are all it can
//! return, so that is all it keeps.

use vstd::prelude::*;
use vstd::string::*;

use super::scan::{behind, Candidate, Held};

verus! {

/// The field that identifies a document.
pub const ID_FIELD: &'static str = "_id";

/// One key of a sort.
#[derive(Debug, PartialEq, Eq)]
pub struct SortKey {
    pub path: String,
    pub descending: bool,
}

/// Which of two things comes first.
#[derive(Clone, Copy, Debug, PartialEq, Eq, Structural)]
pub enum Rank {
    First,
    Same,
    Second,
}

/// The other way round.
pub open spec fn reversed(r: Rank) -> Rank {
    match r {
        Rank::First => Rank::Second,
        Rank::Same => Rank::Same,
        Rank::Second => Rank::First,
    }
}

/// Bytes in order: by the first byte that differs, and a prefix before what it
/// is a prefix of.
pub open spec fn bytes_rank(a: Seq<u8>, b: Seq<u8>) -> Rank
    decreases a.len(),
{
    if a.len() == 0 && b.len() == 0 {
        Rank::Same
    } else if a.len() == 0 {
        Rank::First
    } else if b.len() == 0 {
        Rank::Second
    } else if a[0] < b[0] {
        Rank::First
    } else if a[0] > b[0] {
        Rank::Second
    } else {
        bytes_rank(a.skip(1), b.skip(1))
    }
}

/// Key lists in order, from the key in place `from` on: by the first key that
/// differs, the other way round where that key descends.
pub open spec fn keys_rank(
    descending: Seq<bool>,
    a: Seq<Seq<u8>>,
    b: Seq<Seq<u8>>,
    from: nat,
) -> Rank
    decreases descending.len() - from,
{
    if from >= descending.len() {
        Rank::Same
    } else {
        let r = bytes_rank(a[from as int], b[from as int]);
        if r == Rank::Same {
            keys_rank(descending, a, b, from + 1)
        } else if descending[from as int] {
            reversed(r)
        } else {
            r
        }
    }
}

/// The bytes of a match's keys.
pub open spec fn key_bytes(keys: Seq<Vec<u8>>) -> Seq<Seq<u8>> {
    Seq::new(keys.len(), |i: int| keys[i]@)
}

/// The directions of a sort's keys.
pub open spec fn directions(order: Seq<SortKey>) -> Seq<bool> {
    Seq::new(order.len(), |i: int| order[i].descending)
}

/// Which of two matches comes first.
pub open spec fn ranks(descending: Seq<bool>, a: Candidate, b: Candidate) -> Rank {
    keys_rank(descending, key_bytes(a.sort_keys@), key_bytes(b.sort_keys@), 0)
}

/// Which of two runs of bytes comes first.
pub fn compare_bytes(a: &[u8], b: &[u8]) -> (r: Rank)
    ensures
        r == bytes_rank(a@, b@),
{
    let mut i: usize = 0;
    assert(a@.skip(0) =~= a@ && b@.skip(0) =~= b@);
    while i < a.len() && i < b.len()
        invariant
            i <= a.len(),
            i <= b.len(),
            bytes_rank(a@, b@) == bytes_rank(a@.skip(i as int), b@.skip(i as int)),
        decreases a.len() - i,
    {
        if a[i] < b[i] {
            return Rank::First;
        }
        if a[i] > b[i] {
            return Rank::Second;
        }
        assert(a@.skip(i as int).skip(1) =~= a@.skip(i + 1));
        assert(b@.skip(i as int).skip(1) =~= b@.skip(i + 1));
        i = i + 1;
    }
    if i < b.len() {
        Rank::First
    } else if i < a.len() {
        Rank::Second
    } else {
        Rank::Same
    }
}

/// Which of two matches comes first.
pub fn compare_keys(order: &Vec<SortKey>, a: &Candidate, b: &Candidate) -> (r: Rank)
    requires
        a.sort_keys@.len() == order@.len(),
        b.sort_keys@.len() == order@.len(),
    ensures
        r == ranks(directions(order@), *a, *b),
{
    let ghost d = directions(order@);
    let ghost x = key_bytes(a.sort_keys@);
    let ghost y = key_bytes(b.sort_keys@);
    let mut i: usize = 0;
    while i < order.len()
        invariant
            i <= order.len(),
            a.sort_keys@.len() == order@.len(),
            b.sort_keys@.len() == order@.len(),
            d == directions(order@),
            x == key_bytes(a.sort_keys@),
            y == key_bytes(b.sort_keys@),
            keys_rank(d, x, y, 0) == keys_rank(d, x, y, i as nat),
        decreases order.len() - i,
    {
        let r = compare_bytes(a.sort_keys[i].as_slice(), b.sort_keys[i].as_slice());
        match r {
            Rank::Same => {},
            Rank::First => {
                return if order[i].descending {
                    Rank::Second
                } else {
                    Rank::First
                };
            },
            Rank::Second => {
                return if order[i].descending {
                    Rank::First
                } else {
                    Rank::Second
                };
            },
        }
        i = i + 1;
    }
    Rank::Same
}

/// Whether a sort specification is exactly `_id` ascending.
pub open spec fn id_ascending(sort: Seq<SortKey>) -> bool {
    sort.len() == 1 && sort[0].path@ == ID_FIELD@ && !sort[0].descending
}

pub fn sort_is_id_ascending(sort: &Vec<SortKey>) -> (b: bool)
    ensures
        b == id_ascending(sort@),
{
    sort.len() == 1 && *sort[0].path.as_str() == *ID_FIELD && !sort[0].descending
}

/// A sort key as text and direction.
pub open spec fn sort_views(sort: Seq<SortKey>) -> Seq<(Seq<char>, bool)> {
    Seq::new(sort.len(), |i: int| (sort[i].path@, sort[i].descending))
}

/// Whether a sort already sorts by `_id`.
pub open spec fn sorts_by_id(sort: Seq<SortKey>) -> bool {
    exists|i: int| 0 <= i < sort.len() && (#[trigger] sort[i]).path@ == ID_FIELD@
}

/// A sort with `_id` ascending as its final key, unless it already sorts by
/// `_id`. That makes the order total: `_id` is unique.
pub fn with_id_tiebreak(sort: &Vec<SortKey>) -> (order: Vec<SortKey>)
    ensures
        sort_views(order@) == (if sorts_by_id(sort@) {
            sort_views(sort@)
        } else {
            sort_views(sort@).push((ID_FIELD@, false))
        }),
        sorts_by_id(order@),
{
    let mut order: Vec<SortKey> = Vec::new();
    let mut by_id = false;
    let mut i: usize = 0;
    while i < sort.len()
        invariant
            i <= sort.len(),
            order@.len() == i,
            forall|k: int|
                0 <= k < i ==> (#[trigger] order@[k]).path@ == sort@[k].path@
                    && order@[k].descending == sort@[k].descending,
            by_id == exists|k: int| 0 <= k < i && (#[trigger] sort@[k]).path@ == ID_FIELD@,
        decreases sort.len() - i,
    {
        if *sort[i].path.as_str() == *ID_FIELD {
            assert(sort@[i as int].path@ == ID_FIELD@);
            by_id = true;
        }
        order.push(SortKey { path: sort[i].path.clone(), descending: sort[i].descending });
        i = i + 1;
    }
    if by_id {
        assert(sort_views(order@) =~= sort_views(sort@));
        proof {
            let k = choose|k: int| 0 <= k < sort@.len() && (#[trigger] sort@[k]).path@ == ID_FIELD@;
            assert(order@[k].path@ == ID_FIELD@);
        }
    } else {
        order.push(SortKey { path: ID_FIELD.to_owned(), descending: false });
        assert(sort_views(order@) =~= sort_views(sort@).push((ID_FIELD@, false)));
        assert(order@[sort@.len() as int].path@ == ID_FIELD@);
    }
    order
}

/// Where a match belongs among ones in order: in front of the first that comes
/// after it.
pub open spec fn place_in(descending: Seq<bool>, held: Seq<Candidate>, x: Candidate) -> int
    decreases held.len(),
{
    if held.len() == 0 {
        0
    } else if ranks(descending, x, held[0]) == Rank::First {
        0
    } else {
        1 + place_in(descending, held.skip(1), x)
    }
}

/// The matches with one more put in its place.
pub open spec fn placed(descending: Seq<bool>, held: Seq<Candidate>, x: Candidate) -> Seq<Candidate> {
    held.insert(place_in(descending, held, x), x)
}

/// The first `n`, or all where there are fewer.
pub open spec fn at_most(s: Seq<Candidate>, n: nat) -> Seq<Candidate> {
    if s.len() <= n {
        s
    } else {
        s.take(n as int)
    }
}

/// The window after these were offered, in this order: each put in its place,
/// and never more than `n` kept.
pub open spec fn window(descending: Seq<bool>, offered: Seq<Candidate>, n: nat) -> Seq<Candidate>
    decreases offered.len(),
{
    if offered.len() == 0 {
        Seq::empty()
    } else {
        at_most(
            placed(descending, window(descending, offered.drop_last(), n), offered.last()),
            n,
        )
    }
}

/// All of the offered, in order; the earlier offered first where two rank the
/// same.
pub open spec fn sorted(descending: Seq<bool>, offered: Seq<Candidate>) -> Seq<Candidate>
    decreases offered.len(),
{
    if offered.len() == 0 {
        Seq::empty()
    } else {
        placed(descending, sorted(descending, offered.drop_last()), offered.last())
    }
}

proof fn lemma_place_in(descending: Seq<bool>, held: Seq<Candidate>, x: Candidate)
    ensures
        0 <= place_in(descending, held, x) <= held.len(),
        forall|i: int|
            0 <= i < place_in(descending, held, x) ==> ranks(descending, x, #[trigger] held[i])
                != Rank::First,
        place_in(descending, held, x) < held.len() ==> ranks(
            descending,
            x,
            held[place_in(descending, held, x)],
        ) == Rank::First,
    decreases held.len(),
{
    if held.len() > 0 && ranks(descending, x, held[0]) != Rank::First {
        lemma_place_in(descending, held.skip(1), x);
        assert forall|i: int| 0 <= i < place_in(descending, held, x) implies ranks(
            descending,
            x,
            #[trigger] held[i],
        ) != Rank::First by {
            if i > 0 {
                assert(held.skip(1)[i - 1] == held[i]);
            }
        }
    }
}

proof fn lemma_place_in_unique(descending: Seq<bool>, held: Seq<Candidate>, x: Candidate, at: int)
    requires
        0 <= at <= held.len(),
        forall|i: int| 0 <= i < at ==> ranks(descending, x, #[trigger] held[i]) != Rank::First,
        at < held.len() ==> ranks(descending, x, held[at]) == Rank::First,
    ensures
        place_in(descending, held, x) == at,
{
    lemma_place_in(descending, held, x);
    let p = place_in(descending, held, x);
    if p < at {
        assert(ranks(descending, x, held[p]) != Rank::First);
    } else if at < p {
        assert(ranks(descending, x, held[at]) != Rank::First);
    }
}

/// The window is the front of the full sort: keeping only what can be returned
/// changes nothing of what is returned.
pub proof fn the_window_is_the_front_of_the_full_sort(
    descending: Seq<bool>,
    offered: Seq<Candidate>,
    n: nat,
)
    ensures
        window(descending, offered, n) == at_most(sorted(descending, offered), n),
        sorted(descending, offered).len() == offered.len(),
    decreases offered.len(),
{
    if offered.len() > 0 {
        let before = offered.drop_last();
        let x = offered.last();
        the_window_is_the_front_of_the_full_sort(descending, before, n);
        let all = sorted(descending, before);
        let held = window(descending, before, n);
        lemma_place_in(descending, all, x);
        let at = place_in(descending, all, x);
        let here = if at < held.len() {
            at
        } else {
            held.len() as int
        };
        assert forall|i: int| 0 <= i < here implies ranks(descending, x, #[trigger] held[i])
            != Rank::First by {
            assert(held[i] == all[i]);
        }
        if here < held.len() {
            assert(held[here] == all[here]);
        }
        lemma_place_in_unique(descending, held, x, here);
        assert(at_most(held.insert(here, x), n) =~= at_most(all.insert(at, x), n));
    }
}

/// The `n` least of what it is offered.
pub struct TopK<T> {
    n: usize,
    held: Vec<T>,
}

impl<T: Held> TopK<T> {
    /// What is held, least first.
    pub closed spec fn kept(self) -> Seq<Candidate> {
        behind(self.held@)
    }

    /// How many may be held.
    pub closed spec fn size(self) -> nat {
        self.n as nat
    }

    /// Every match held has a key for each key of the sort, and no more are
    /// held than may be.
    pub open spec fn wf(self, order: Seq<SortKey>) -> bool {
        &&& self.kept().len() <= self.size()
        &&& forall|i: int|
            0 <= i < self.kept().len() ==> (#[trigger] self.kept()[i]).sort_keys@.len()
                == order.len()
    }

    pub fn new(n: usize) -> (top: Self)
        ensures
            top.kept() == Seq::<Candidate>::empty(),
            top.size() == n,
    {
        let top = TopK { n, held: Vec::new() };
        assert(top.kept() =~= Seq::<Candidate>::empty());
        top
    }

    /// Offer one match. One that would not displace the largest held is dropped
    /// on the spot.
    pub fn offer(&mut self, order: &Vec<SortKey>, x: T)
        requires
            old(self).wf(order@),
            x.item().sort_keys@.len() == order@.len(),
        ensures
            final(self).wf(order@),
            final(self).size() == old(self).size(),
            final(self).kept() == at_most(
                placed(directions(order@), old(self).kept(), x.item()),
                old(self).size(),
            ),
    {
        let ghost before = self.kept();
        let ghost refs = self.held@;
        let ghost d = directions(order@);
        let mut at: usize = 0;
        let mut found = false;
        while at < self.held.len() && !found
            invariant
                at <= self.held.len(),
                self.held@ == refs,
                before == behind(refs),
                self.n == old(self).n,
                x.item().sort_keys@.len() == order@.len(),
                d == directions(order@),
                forall|i: int|
                    0 <= i < before.len() ==> (#[trigger] before[i]).sort_keys@.len()
                        == order@.len(),
                forall|i: int| 0 <= i < at ==> ranks(d, x.item(), #[trigger] before[i]) != Rank::First,
                found ==> at < before.len() && ranks(d, x.item(), before[at as int]) == Rank::First,
            decreases self.held.len() - at, (if found { 0int } else { 1 }),
        {
            assert(before[at as int] == refs[at as int].item());
            match compare_keys(order, x.candidate(), self.held[at].candidate()) {
                Rank::First => {
                    found = true;
                },
                _ => {
                    at = at + 1;
                },
            }
        }
        proof {
            lemma_place_in_unique(d, before, x.item(), at as int);
        }
        if at >= self.n {
            // Every match held comes before it, and there is no room behind
            // them.
            assert(before.len() == self.n);
            assert(at_most(before.insert(at as int, x.item()), self.n as nat) =~= before);
            return;
        }
        if self.held.len() == self.n {
            let _ = self.held.pop();
        }
        self.held.insert(at, x);
        proof {
            let expected = at_most(before.insert(at as int, x.item()), self.n as nat);
            assert(self.kept() =~= expected);
            assert forall|i: int| 0 <= i < expected.len() implies (
            #[trigger] expected[i]).sort_keys@.len() == order@.len() by {
                if i < at {
                    assert(expected[i] == before[i]);
                } else if i > at {
                    assert(expected[i] == before[i - 1]);
                }
            }
        }
    }

    /// Everything held, least first.
    pub fn into_sorted(self) -> (held: Vec<T>)
        ensures
            behind(held@) == self.kept(),
    {
        self.held
    }
}

pub proof fn lemma_bytes_rank(a: Seq<u8>, b: Seq<u8>)
    ensures
        bytes_rank(b, a) == reversed(bytes_rank(a, b)),
        bytes_rank(a, b) == Rank::Same <==> a == b,
    decreases a.len(),
{
    if a.len() > 0 && b.len() > 0 && a[0] == b[0] {
        lemma_bytes_rank(a.skip(1), b.skip(1));
        assert(a =~= seq![a[0]] + a.skip(1));
        assert(b =~= seq![b[0]] + b.skip(1));
    } else if a.len() == 0 && b.len() == 0 {
        assert(a =~= b);
    }
}

pub proof fn lemma_bytes_rank_transitive(a: Seq<u8>, b: Seq<u8>, c: Seq<u8>)
    requires
        bytes_rank(a, b) == Rank::First,
        bytes_rank(b, c) == Rank::First,
    ensures
        bytes_rank(a, c) == Rank::First,
    decreases a.len(),
{
    if a.len() > 0 && b.len() > 0 && c.len() > 0 && a[0] == b[0] && b[0] == c[0] {
        lemma_bytes_rank_transitive(a.skip(1), b.skip(1), c.skip(1));
    }
}

proof fn lemma_keys_rank(d: Seq<bool>, a: Seq<Seq<u8>>, b: Seq<Seq<u8>>, from: nat)
    ensures
        keys_rank(d, b, a, from) == reversed(keys_rank(d, a, b, from)),
    decreases d.len() - from,
{
    if from < d.len() {
        lemma_bytes_rank(a[from as int], b[from as int]);
        lemma_keys_rank(d, a, b, from + 1);
    }
}

/// What is not after stays not after.
proof fn lemma_keys_rank_transitive(
    d: Seq<bool>,
    a: Seq<Seq<u8>>,
    b: Seq<Seq<u8>>,
    c: Seq<Seq<u8>>,
    from: nat,
)
    requires
        keys_rank(d, a, b, from) != Rank::Second,
        keys_rank(d, b, c, from) != Rank::Second,
    ensures
        keys_rank(d, a, c, from) != Rank::Second,
        keys_rank(d, a, b, from) == Rank::First ==> keys_rank(d, a, c, from) == Rank::First,
        keys_rank(d, b, c, from) == Rank::First ==> keys_rank(d, a, c, from) == Rank::First,
    decreases d.len() - from,
{
    if from < d.len() {
        let x = a[from as int];
        let y = b[from as int];
        let z = c[from as int];
        lemma_bytes_rank(x, y);
        lemma_bytes_rank(y, z);
        lemma_bytes_rank(x, z);
        if x == y && y == z {
            lemma_keys_rank_transitive(d, a, b, c, from + 1);
        } else if x != y && y != z {
            if d[from as int] {
                lemma_bytes_rank_transitive(z, y, x);
            } else {
                lemma_bytes_rank_transitive(x, y, z);
            }
        }
    }
}

/// Every match comes no later than the ones behind it.
pub open spec fn in_order(descending: Seq<bool>, s: Seq<Candidate>) -> bool {
    forall|i: int, j: int|
        0 <= i < j < s.len() ==> ranks(descending, #[trigger] s[i], #[trigger] s[j])
            != Rank::Second
}

/// The full sort holds what was offered, each as often, and in order.
pub proof fn the_full_sort_is_a_sort(descending: Seq<bool>, offered: Seq<Candidate>)
    ensures
        in_order(descending, sorted(descending, offered)),
        sorted(descending, offered).to_multiset() == offered.to_multiset(),
    decreases offered.len(),
{
    broadcast use vstd::seq_lib::group_to_multiset_ensures;

    if offered.len() > 0 {
        let before = offered.drop_last();
        let x = offered.last();
        the_full_sort_is_a_sort(descending, before);
        let all = sorted(descending, before);
        lemma_place_in(descending, all, x);
        let at = place_in(descending, all, x);
        let s = all.insert(at, x);
        assert forall|i: int, j: int| 0 <= i < j < s.len() implies ranks(
            descending,
            #[trigger] s[i],
            #[trigger] s[j],
        ) != Rank::Second by {
            let a = key_bytes(s[i].sort_keys@);
            let b = key_bytes(s[j].sort_keys@);
            let k = key_bytes(x.sort_keys@);
            if j < at {
                assert(s[i] == all[i] && s[j] == all[j]);
            } else if j == at {
                assert(s[i] == all[i] && s[j] == x);
                lemma_keys_rank(descending, k, a, 0);
            } else if i < at {
                assert(s[i] == all[i] && s[j] == all[j - 1]);
            } else if i == at {
                assert(s[i] == x && s[j] == all[j - 1]);
                if j - 1 > at {
                    assert(ranks(descending, all[at], all[j - 1]) != Rank::Second);
                    lemma_keys_rank_transitive(
                        descending,
                        k,
                        key_bytes(all[at].sort_keys@),
                        b,
                        0,
                    );
                }
            } else {
                assert(s[i] == all[i - 1] && s[j] == all[j - 1]);
            }
        }
        vstd::seq_lib::to_multiset_insert(all, at, x);
        assert(offered =~= before.push(x));
    }
}

/// No two matches rank the same.
pub open spec fn all_differ(descending: Seq<bool>, s: Seq<Candidate>) -> bool {
    forall|i: int, j: int|
        0 <= i < j < s.len() ==> ranks(descending, #[trigger] s[i], #[trigger] s[j]) != Rank::Same
}

/// Where no two matches rank the same, the order they arrive in decides nothing:
/// the same matches give the same page.
pub proof fn arrival_order_decides_nothing(descending: Seq<bool>, a: Seq<Candidate>, b: Seq<Candidate>)
    requires
        all_differ(descending, sorted(descending, a)),
        a.to_multiset() == b.to_multiset(),
    ensures
        sorted(descending, a) == sorted(descending, b),
{
    the_full_sort_is_a_sort(descending, a);
    the_full_sort_is_a_sort(descending, b);
    lemma_one_order(descending, sorted(descending, a), sorted(descending, b));
}

proof fn lemma_one_order(d: Seq<bool>, s: Seq<Candidate>, t: Seq<Candidate>)
    requires
        in_order(d, s),
        all_differ(d, s),
        in_order(d, t),
        s.to_multiset() == t.to_multiset(),
    ensures
        s == t,
    decreases s.len(),
{
    broadcast use vstd::seq_lib::group_to_multiset_ensures;

    assert(s.to_multiset().len() == s.len() && t.to_multiset().len() == t.len());
    if s.len() == 0 {
        assert(s =~= t);
    } else {
        assert(t.contains(s[0])) by {
            assert(s.contains(s[0]));
            assert(s.to_multiset().count(s[0]) > 0);
        }
        assert(s.contains(t[0])) by {
            assert(t.contains(t[0]));
            assert(t.to_multiset().count(t[0]) > 0);
        }
        let j = choose|j: int| 0 <= j < t.len() && t[j] == s[0];
        let k = choose|k: int| 0 <= k < s.len() && s[k] == t[0];
        if k > 0 && j > 0 {
            assert(ranks(d, s[0], s[k]) != Rank::Second && ranks(d, s[0], s[k]) != Rank::Same);
            assert(ranks(d, t[0], t[j]) != Rank::Second);
            lemma_keys_rank(d, key_bytes(s[0].sort_keys@), key_bytes(t[0].sort_keys@), 0);
        }
        assert(s[0] == t[0]);
        let s1 = s.skip(1);
        let t1 = t.skip(1);
        assert(s =~= s1.insert(0, s[0]));
        assert(t =~= t1.insert(0, t[0]));
        vstd::seq_lib::to_multiset_insert(s1, 0, s[0]);
        vstd::seq_lib::to_multiset_insert(t1, 0, t[0]);
        assert(s1.to_multiset() =~= t1.to_multiset()) by {
            assert(s1.to_multiset().insert(s[0]).remove(s[0]) =~= s1.to_multiset());
            assert(t1.to_multiset().insert(s[0]).remove(s[0]) =~= t1.to_multiset());
        }
        assert forall|i: int, m: int| 0 <= i < m < s1.len() implies ranks(
            d,
            #[trigger] s1[i],
            #[trigger] s1[m],
        ) != Rank::Second && ranks(d, s1[i], s1[m]) != Rank::Same by {
            assert(s1[i] == s[i + 1] && s1[m] == s[m + 1]);
        }
        assert forall|i: int, m: int| 0 <= i < m < t1.len() implies ranks(
            d,
            #[trigger] t1[i],
            #[trigger] t1[m],
        ) != Rank::Second by {
            assert(t1[i] == t[i + 1] && t1[m] == t[m + 1]);
        }
        lemma_one_order(d, s1, t1);
    }
}

} // verus!
