//! How far a webhook subscription has been delivered, and the records that say
//! so.
//!
//! Each node records, per subscription, the newest change it has delivered of
//! each origin. Records are keyed `{subscription}:{node}`, so a node only ever
//! writes its own. Any node reads the union to learn what the cluster as a
//! whole has already sent, which is what lets the next owner resume where a
//! dead one stopped.
//!
//! How a node and a clock reading are written in a stored record is not decided
//! here: a record is given by what its parts read as.

use vstd::prelude::*;
use vstd::string::*;

use crate::json::{
    distinct_keys, find_key, key_index, lemma_key_index, lemma_key_index_unique, lookup, named, put,
};
use crate::text::{begins_with, starts_with};

verus! {

/// A hybrid logical clock reading.
#[derive(Clone, Copy, Debug, PartialEq, Eq, Structural)]
pub struct Hlc {
    /// Milliseconds since the epoch.
    pub wall_ms: u64,
    /// Tells readings of one millisecond apart.
    pub logical: u32,
}

/// The reading before every other.
pub open spec fn hlc_zero() -> Hlc {
    Hlc { wall_ms: 0, logical: 0 }
}

impl Hlc {
    /// Whether `self` is before `other`.
    pub open spec fn before(self, other: Hlc) -> bool {
        self.wall_ms < other.wall_ms || self.wall_ms == other.wall_ms && self.logical
            < other.logical
    }

    /// The later of two readings.
    pub open spec fn later(self, other: Hlc) -> Hlc {
        if self.before(other) {
            other
        } else {
            self
        }
    }

    pub fn zero() -> (zero: Self)
        ensures
            zero == hlc_zero(),
    {
        Hlc { wall_ms: 0, logical: 0 }
    }

    /// Whether `self` is before `other`.
    pub fn is_before(&self, other: &Hlc) -> (b: bool)
        ensures
            b == self.before(*other),
    {
        self.wall_ms < other.wall_ms || self.wall_ms == other.wall_ms && self.logical
            < other.logical
    }
}

/// Per origin, the newest change that was delivered.
#[derive(Debug)]
pub struct VersionVector {
    pub entries: Vec<(String, Hlc)>,
}

/// The newest change of `node` among these.
pub open spec fn newest(entries: Seq<(Seq<char>, Hlc)>, node: Seq<char>) -> Hlc {
    match lookup(entries, node) {
        Some(hlc) => hlc,
        None => hlc_zero(),
    }
}

impl VersionVector {
    pub open spec fn view(self) -> Seq<(Seq<char>, Hlc)> {
        named(self.entries@)
    }

    /// The newest change of `node` that was delivered.
    pub open spec fn at(self, node: Seq<char>) -> Hlc {
        newest(self.view(), node)
    }

    pub fn new() -> (v: Self)
        ensures
            v.view() == Seq::<(Seq<char>, Hlc)>::empty(),
            forall|node: Seq<char>| #[trigger] v.at(node) == hlc_zero(),
    {
        let v = VersionVector { entries: Vec::new() };
        assert(v.view() =~= Seq::<(Seq<char>, Hlc)>::empty());
        v
    }

    /// The newest change of `node` that was delivered: the first of all
    /// readings where none was.
    pub fn get(&self, node: &str) -> (hlc: Hlc)
        ensures
            hlc == self.at(node@),
    {
        let at: usize = find_key(&self.entries, node);
        if at < self.entries.len() {
            self.entries[at].1
        } else {
            Hlc::zero()
        }
    }

    /// Note that a change of `node` at `hlc` was delivered. Older news of an
    /// origin changes nothing.
    pub fn observe(&mut self, node: &str, hlc: Hlc)
        ensures
            forall|n: Seq<char>| #[trigger]
                final(self).at(n) == (if n == node@ {
                    old(self).at(n).later(hlc)
                } else {
                    old(self).at(n)
                }),
            distinct_keys(old(self).view()) ==> distinct_keys(final(self).view()),
    {
        let ghost before = self.view();
        let at: usize = find_key(&self.entries, node);
        proof {
            lemma_key_index(before, node@);
        }
        if at < self.entries.len() {
            if self.entries[at].1.is_before(&hlc) {
                self.entries[at].1 = hlc;
                assert(self.view() =~= put(before, node@, hlc));
            }
        } else {
            self.entries.push((node.to_owned(), hlc));
            assert(self.view() =~= put(before, node@, hlc));
        }
        proof {
            lemma_newest_put(before, node@, hlc);
            crate::json::lemma_put_distinct_or_not(before, node@, hlc);
        }
    }

    /// The same knowledge.
    pub fn duplicate(&self) -> (v: Self)
        ensures
            v.view() == self.view(),
    {
        let mut entries: Vec<(String, Hlc)> = Vec::new();
        let mut i: usize = 0;
        while i < self.entries.len()
            invariant
                i <= self.entries.len(),
                entries@.len() == i,
                forall|k: int|
                    0 <= k < i ==> (#[trigger] entries@[k]).0@ == self.entries@[k].0@
                        && entries@[k].1 == self.entries@[k].1,
            decreases self.entries.len() - i,
        {
            entries.push((self.entries[i].0.clone(), self.entries[i].1));
            i = i + 1;
        }
        let v = VersionVector { entries };
        assert(v.view() =~= self.view());
        v
    }
}

proof fn lemma_newest_put(entries: Seq<(Seq<char>, Hlc)>, node: Seq<char>, hlc: Hlc)
    ensures
        forall|n: Seq<char>| #[trigger]
            newest(put(entries, node, hlc), n) == (if n == node {
                hlc
            } else {
                newest(entries, n)
            }),
{
    let after = put(entries, node, hlc);
    lemma_key_index(entries, node);
    assert forall|n: Seq<char>| #[trigger] newest(after, n) == (if n == node {
        hlc
    } else {
        newest(entries, n)
    }) by {
        lemma_key_index(entries, n);
        let at = if n == node {
            key_index(entries, node)
        } else if key_index(entries, n) < entries.len() {
            key_index(entries, n)
        } else {
            after.len() as int
        };
        assert forall|i: int| 0 <= i < at implies #[trigger] after[i].0 != n by {
            if i < entries.len() {
                assert(entries[i].0 != n);
            }
        }
        lemma_key_index_unique(after, n, at);
    }
}

proof fn lemma_newest_take(entries: Seq<(Seq<char>, Hlc)>, i: int, n: Seq<char>)
    requires
        distinct_keys(entries),
        0 <= i < entries.len(),
    ensures
        newest(entries.take(i + 1), n) == (if n == entries[i].0 {
            entries[i].1
        } else {
            newest(entries.take(i), n)
        }),
        n == entries[i].0 ==> newest(entries.take(i), n) == hlc_zero(),
{
    let before = entries.take(i);
    let after = entries.take(i + 1);
    lemma_key_index(before, n);
    if n == entries[i].0 {
        assert forall|k: int| 0 <= k < i implies #[trigger] before[k].0 != n && after[k].0 != n by {
            assert(entries[k].0 != entries[i].0);
        }
        lemma_key_index_unique(before, n, i);
        assert forall|k: int| 0 <= k < i implies #[trigger] after[k].0 != n by {
            assert(before[k].0 != n);
        }
        lemma_key_index_unique(after, n, i);
    } else {
        let at = if key_index(before, n) < i {
            key_index(before, n)
        } else {
            i + 1
        };
        assert forall|k: int| 0 <= k < at implies #[trigger] after[k].0 != n by {
            if k < i {
                assert(before[k].0 != n);
            }
        }
        lemma_key_index_unique(after, n, at);
    }
}

/// What a record says of one origin: the node that its name reads as, in that
/// node's own text, and the clock reading that its value holds. Either is missing
/// where it reads as none.
#[derive(Debug)]
pub struct Delivered {
    pub node: Option<String>,
    pub hlc: Option<Hlc>,
}

/// A progress record: its id, where it has one that is text, and what it says was
/// delivered.
#[derive(Debug)]
pub struct ProgressRecord {
    pub id: Option<String>,
    pub delivered: Vec<Delivered>,
}

/// What a progress record's ids start with.
pub open spec fn record_prefix(subscription: Seq<char>) -> Seq<char> {
    subscription + ":"@
}

/// Whether a record is one of a subscription's, whichever node wrote it.
pub open spec fn is_record_of(record: ProgressRecord, subscription: Seq<char>) -> bool {
    match record.id {
        Some(id) => begins_with(id@, record_prefix(subscription)),
        None => false,
    }
}

/// Whether a record's entry notes a change of `node`. A name that is no node's is
/// passed over, and so is a value that is no reading.
pub open spec fn notes(entry: Delivered, node: Seq<char>) -> bool {
    entry.node is Some && entry.node->0@ == node && entry.hlc is Some
}

/// The newest change of `node` that the first `n` entries note.
pub open spec fn noted(entries: Seq<Delivered>, node: Seq<char>, n: nat) -> Hlc
    decreases n,
{
    if n == 0 {
        hlc_zero()
    } else {
        let before = noted(entries, node, (n - 1) as nat);
        if notes(entries[n - 1], node) {
            before.later(entries[n - 1].hlc->0)
        } else {
            before
        }
    }
}

/// The newest change of `node` that one record says was delivered.
pub open spec fn delivered_in(
    record: ProgressRecord,
    subscription: Seq<char>,
    node: Seq<char>,
) -> Hlc {
    if is_record_of(record, subscription) {
        noted(record.delivered@, node, record.delivered@.len())
    } else {
        hlc_zero()
    }
}

/// The newest change of `node` that any of the first `n` records says was
/// delivered to a subscription.
pub open spec fn union_at(
    records: Seq<ProgressRecord>,
    subscription: Seq<char>,
    node: Seq<char>,
    n: nat,
) -> Hlc
    decreases n,
{
    if n == 0 {
        hlc_zero()
    } else {
        union_at(records, subscription, node, (n - 1) as nat).later(
            delivered_in(records[n - 1], subscription, node),
        )
    }
}

fn belongs_to(record: &ProgressRecord, subscription: &str) -> (b: bool)
    ensures
        b == is_record_of(*record, subscription@),
{
    let mut prefix = subscription.to_owned();
    prefix.append(":");
    match &record.id {
        Some(id) => starts_with(id.as_str(), prefix.as_str()),
        None => false,
    }
}

/// The union of every node's progress for a subscription, from the progress
/// records.
///
/// The union rather than this node's own record: after a failover the new owner
/// must not resend what the previous owner already delivered.
pub fn union_progress(records: &Vec<ProgressRecord>, subscription: &str) -> (union: VersionVector)
    ensures
        forall|node: Seq<char>| #[trigger]
            union.at(node) == union_at(records@, subscription@, node, records@.len()),
        distinct_keys(union.view()),
{
    let mut union = VersionVector::new();
    let mut i: usize = 0;
    while i < records.len()
        invariant
            i <= records.len(),
            distinct_keys(union.view()),
            forall|node: Seq<char>| #[trigger]
                union.at(node) == union_at(records@, subscription@, node, i as nat),
        decreases records.len() - i,
    {
        let ghost so_far = union;
        if belongs_to(&records[i], subscription) {
            note_all(&mut union, &records[i].delivered);
        }
        assert forall|node: Seq<char>| #[trigger] union.at(node) == union_at(
            records@,
            subscription@,
            node,
            (i + 1) as nat,
        ) by {
            assert(so_far.at(node) == union_at(records@, subscription@, node, i as nat));
        }
        i = i + 1;
    }
    union
}

/// Note every change that a record's entries note.
fn note_all(union: &mut VersionVector, entries: &Vec<Delivered>)
    requires
        distinct_keys(old(union).view()),
    ensures
        distinct_keys(final(union).view()),
        forall|node: Seq<char>| #[trigger]
            final(union).at(node) == old(union).at(node).later(
                noted(entries@, node, entries@.len()),
            ),
{
    let mut j: usize = 0;
    while j < entries.len()
        invariant
            j <= entries.len(),
            distinct_keys(union.view()),
            forall|node: Seq<char>| #[trigger]
                union.at(node) == old(union).at(node).later(noted(entries@, node, j as nat)),
        decreases entries.len() - j,
    {
        let ghost so_far = *union;
        match (&entries[j].node, entries[j].hlc) {
            (Some(node), Some(hlc)) => {
                union.observe(node.as_str(), hlc);
            },
            _ => {},
        }
        assert forall|node: Seq<char>| #[trigger] union.at(node) == old(union).at(node).later(
            noted(entries@, node, (j + 1) as nat),
        ) by {
            assert(so_far.at(node) == old(union).at(node).later(noted(entries@, node, j as nat)));
        }
        j = j + 1;
    }
}

/// The ids of a subscription's records among the first `n`.
pub open spec fn record_ids(records: Seq<ProgressRecord>, subscription: Seq<char>, n: nat) -> Seq<
    Seq<char>,
>
    decreases n,
{
    if n == 0 {
        Seq::empty()
    } else {
        let before = record_ids(records, subscription, (n - 1) as nat);
        if is_record_of(records[n - 1], subscription) {
            before.push(records[n - 1].id->0@)
        } else {
            before
        }
    }
}

/// The views of a list of strings.
pub open spec fn string_views(items: Seq<String>) -> Seq<Seq<char>> {
    Seq::new(items.len(), |i: int| items[i]@)
}

/// The records to drop once a subscription is gone: every node's, in the order
/// they are stored.
pub fn forget_progress(records: &Vec<ProgressRecord>, subscription: &str) -> (stale: Vec<String>)
    ensures
        string_views(stale@) == record_ids(records@, subscription@, records@.len()),
{
    let mut stale: Vec<String> = Vec::new();
    let mut i: usize = 0;
    assert(string_views(stale@) =~= Seq::empty());
    while i < records.len()
        invariant
            i <= records.len(),
            string_views(stale@) == record_ids(records@, subscription@, i as nat),
        decreases records.len() - i,
    {
        if belongs_to(&records[i], subscription) {
            match &records[i].id {
                Some(id) => {
                    let ghost before = stale@;
                    stale.push(id.clone());
                    assert(string_views(stale@) =~= string_views(before).push(id@));
                },
                None => {},
            }
        }
        i = i + 1;
    }
    stale
}

/// Whether entries say exactly this, in this order.
pub open spec fn says_delivered(
    delivered: Seq<Delivered>,
    entries: Seq<(Seq<char>, Hlc)>,
) -> bool {
    delivered.len() == entries.len() && forall|i: int|
        0 <= i < entries.len() ==> (#[trigger] delivered[i]).node is Some
            && delivered[i].node->0@ == entries[i].0 && delivered[i].hlc == Some(entries[i].1)
}

/// The record this node, named `node`, keeps of what it has delivered. Its own
/// id, so there is nothing for another node's record to overwrite.
pub fn progress_record(subscription: &str, node: &str, progress: &VersionVector) -> (
    record: ProgressRecord)
    ensures
        record.id is Some,
        record.id->0@ == record_prefix(subscription@) + node@,
        says_delivered(record.delivered@, progress.view()),
{
    let mut delivered: Vec<Delivered> = Vec::new();
    let mut i: usize = 0;
    while i < progress.entries.len()
        invariant
            i <= progress.entries.len(),
            delivered@.len() == i,
            forall|k: int|
                0 <= k < i ==> (#[trigger] delivered@[k]).node is Some && delivered@[k].node->0@
                    == progress.view()[k].0 && delivered@[k].hlc == Some(progress.view()[k].1),
        decreases progress.entries.len() - i,
    {
        delivered.push(
            Delivered {
                node: Some(progress.entries[i].0.clone()),
                hlc: Some(progress.entries[i].1),
            },
        );
        i = i + 1;
    }
    let mut id = subscription.to_owned();
    id.append(":");
    id.append(node);
    ProgressRecord { id: Some(id), delivered }
}

/// What a node records of a subscription's progress is what is read back of it,
/// whichever node reads.
pub proof fn recorded_progress_reads_back(
    subscription: Seq<char>,
    node: Seq<char>,
    entries: Seq<(Seq<char>, Hlc)>,
    record: ProgressRecord,
    origin: Seq<char>,
)
    requires
        distinct_keys(entries),
        record.id is Some,
        record.id->0@ == record_prefix(subscription) + node,
        says_delivered(record.delivered@, entries),
    ensures
        delivered_in(record, subscription, origin) == newest(entries, origin),
{
    let prefix = record_prefix(subscription);
    assert(record.id->0@.subrange(0, prefix.len() as int) =~= prefix);
    lemma_noted(record.delivered@, entries, origin, entries.len());
    assert(entries.take(entries.len() as int) =~= entries);
}

proof fn lemma_noted(
    delivered: Seq<Delivered>,
    entries: Seq<(Seq<char>, Hlc)>,
    origin: Seq<char>,
    n: nat,
)
    requires
        distinct_keys(entries),
        says_delivered(delivered, entries),
        n <= entries.len(),
    ensures
        noted(delivered, origin, n) == newest(entries.take(n as int), origin),
    decreases n,
{
    if n > 0 {
        lemma_noted(delivered, entries, origin, (n - 1) as nat);
        lemma_newest_take(entries, n - 1, origin);
        assert(delivered[n - 1].hlc == Some(entries[n - 1].1));
    } else {
        assert(entries.take(0) =~= Seq::<(Seq<char>, Hlc)>::empty());
    }
}

/// Progress never goes back: whatever is noted, every origin stands where it
/// stood or later.
pub proof fn noting_never_goes_back(before: Hlc, hlc: Hlc)
    ensures
        !before.later(hlc).before(before),
        !before.later(hlc).before(hlc),
        before.later(hlc) == before || before.later(hlc) == hlc,
{
}

} // verus!
