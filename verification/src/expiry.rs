//! The TTL expiry pass: which node expires a collection, and what a pass adds
//! up to.
//!
//! Every node runs its own timer, so if each expired independently one
//! document would produce one delete per node. So ownership is hashed per
//! collection through [`crate::ownership`], exactly as webhook subscriptions
//! are: one node expires a given collection and its deletes replicate.
//!
//! A node that its own member set leaves out still counts itself a candidate.
//! Two deletes of one document converge to the same tombstone, so that costs
//! an extra log entry and nothing else.

use vstd::prelude::*;
use vstd::string::*;

use crate::ownership::{is_owner, member_texts, owns};

verus! {

/// How often a node looks for expired documents, in milliseconds. A TTL is a
/// retention policy, not a deadline.
pub const DEFAULT_INTERVAL_MS: u64 = 60_000;

/// The ownership key for a collection's expiry. Prefixed so an expiry key can
/// never collide with a webhook subscription id in the same hash space.
pub open spec fn expiry_key(db: Seq<char>, collection: Seq<char>) -> Seq<char> {
    "ttl\0"@ + db + "."@ + collection
}

pub fn key(db: &str, collection: &str) -> (k: String)
    ensures
        k@ == expiry_key(db@, collection@),
{
    let mut k = "ttl\0".to_owned();
    k.append(db);
    k.append(".");
    k.append(collection);
    k
}

/// An expiry key is never a name without the prefix's NUL, and so never a
/// webhook subscription id, whatever the database and the collection are called.
pub proof fn an_expiry_key_is_no_subscription_id(
    db: Seq<char>,
    collection: Seq<char>,
    subscription: Seq<char>,
)
    requires
        !subscription.contains('\0'),
    ensures
        expiry_key(db, collection) != subscription,
{
    reveal_strlit("ttl\0");
    assert("ttl\0"@[3] == '\0');
    assert(expiry_key(db, collection)[3] == '\0');
    if expiry_key(db, collection) == subscription {
        assert(subscription[3] == '\0');
        assert(subscription.contains('\0'));
    }
}

/// The members that may own a collection's expiry: the live ones, and this node
/// itself, which stands at `place` in the members' order where they leave it out.
pub open spec fn candidates(me: Seq<char>, members: Seq<Seq<char>>, place: usize) -> Seq<
    Seq<char>,
> {
    if members.contains(me) {
        members
    } else if place < members.len() {
        members.insert(place as int, me)
    } else {
        members.push(me)
    }
}

/// A node that its own member set leaves out counts itself at its place, and so
/// decides as if it were listed: equal weights go by the members' order either
/// way.
pub proof fn a_node_left_out_counts_itself_where_it_belongs(
    members: Seq<Seq<char>>,
    place: usize,
)
    requires
        place < members.len(),
        crate::ownership::distinct_members(members),
    ensures
        candidates(members[place as int], members.remove(place as int), place) == members,
        candidates(members[place as int], members, place) == members,
{
    let me = members[place as int];
    let rest = members.remove(place as int);
    assert(!rest.contains(me)) by {
        assert forall|i: int| 0 <= i < rest.len() implies #[trigger] rest[i] != me by {
            if i < place {
                assert(rest[i] == members[i]);
            } else {
                assert(rest[i] == members[i + 1]);
            }
        }
    }
    assert(members.contains(me));
    assert(candidates(me, rest, place) =~= members);
}

/// Whether this node expires a collection.
pub open spec fn expires_here(
    db: Seq<char>,
    collection: Seq<char>,
    me: Seq<char>,
    members: Seq<Seq<char>>,
    place: usize,
) -> bool {
    is_owner(expiry_key(db, collection), me, candidates(me, members, place))
}

/// A collection and the indexes of it that carry a TTL.
#[derive(Debug)]
pub struct Collection {
    pub db: String,
    pub name: String,
    pub ttl_indexes: Vec<String>,
}

/// One index to expire documents of.
#[derive(Debug)]
pub struct Expire {
    pub db: String,
    pub collection: String,
    pub index: String,
}

/// An index to expire, as text.
pub type ExpireView = (Seq<char>, Seq<char>, Seq<char>);

impl View for Expire {
    type V = ExpireView;

    open spec fn view(&self) -> ExpireView {
        (self.db@, self.collection@, self.index@)
    }
}

/// One collection's indexes, each with its collection.
pub open spec fn indexes_of(c: Collection) -> Seq<ExpireView> {
    Seq::new(c.ttl_indexes@.len(), |i: int| (c.db@, c.name@, c.ttl_indexes@[i]@))
}

/// The indexes to expire among one database's first `n` collections.
pub open spec fn planned_in(
    collections: Seq<Collection>,
    me: Seq<char>,
    members: Seq<Seq<char>>,
    place: usize,
    n: nat,
) -> Seq<ExpireView>
    decreases n,
{
    if n == 0 {
        Seq::empty()
    } else {
        let before = planned_in(collections, me, members, place, (n - 1) as nat);
        let c = collections[n - 1];
        if expires_here(c.db@, c.name@, me, members, place) {
            before + indexes_of(c)
        } else {
            before
        }
    }
}

/// The indexes to expire among the first `n` databases. One whose collections
/// could not be listed has none.
pub open spec fn planned(
    databases: Seq<Option<Vec<Collection>>>,
    me: Seq<char>,
    members: Seq<Seq<char>>,
    place: usize,
    n: nat,
) -> Seq<ExpireView>
    decreases n,
{
    if n == 0 {
        Seq::empty()
    } else {
        let before = planned(databases, me, members, place, (n - 1) as nat);
        match databases[n - 1] {
            Some(collections) => before + planned_in(
                collections@,
                me,
                members,
                place,
                collections@.len(),
            ),
            None => before,
        }
    }
}

/// The views of a plan.
pub open spec fn plan_views(plan: Seq<Expire>) -> Seq<ExpireView> {
    Seq::new(plan.len(), |i: int| plan[i]@)
}

/// Whether this node expires `db.collection`. `place` is where it stands in the
/// members' order.
pub fn owns_collection(
    db: &str,
    collection: &str,
    me: &str,
    members: &Vec<String>,
    place: usize,
) -> (b: bool)
    ensures
        b == expires_here(db@, collection@, me@, member_texts(members@), place),
{
    let k = key(db, collection);
    let ghost texts = member_texts(members@);
    let mut all: Vec<String> = Vec::new();
    let mut listed = false;
    let mut i: usize = 0;
    while i < members.len()
        invariant
            i <= members.len(),
            all@.len() == i,
            texts == member_texts(members@),
            forall|j: int| 0 <= j < i ==> (#[trigger] all@[j])@ == texts[j],
            listed == exists|j: int| 0 <= j < i && #[trigger] texts[j] == me@,
        decreases members.len() - i,
    {
        if *members[i].as_str() == *me {
            assert(texts[i as int] == me@);
            listed = true;
        }
        all.push(members[i].clone());
        i = i + 1;
    }
    proof {
        if listed {
            assert(texts.contains(me@));
        } else {
            assert(!texts.contains(me@));
        }
    }
    if !listed {
        if place < all.len() {
            all.insert(place, me.to_owned());
        } else {
            all.push(me.to_owned());
        }
    }
    assert(member_texts(all@) =~= candidates(me@, texts, place));
    owns(k.as_str(), me, &all)
}

/// What one pass of this node is to expire, in catalogue order: every index
/// with a TTL, of every collection this node owns the expiry of. Nothing is
/// read of a collection it does not own, and a database that could not be
/// listed stops no other. `place` is where this node stands in the members'
/// order.
pub fn plan(
    databases: &Vec<Option<Vec<Collection>>>,
    me: &str,
    members: &Vec<String>,
    place: usize,
) -> (work: Vec<Expire>)
    ensures
        plan_views(work@) == planned(
            databases@,
            me@,
            member_texts(members@),
            place,
            databases@.len(),
        ),
{
    let ghost texts = member_texts(members@);
    let mut work: Vec<Expire> = Vec::new();
    let mut d: usize = 0;
    assert(plan_views(work@) =~= Seq::empty());
    while d < databases.len()
        invariant
            d <= databases.len(),
            texts == member_texts(members@),
            plan_views(work@) == planned(databases@, me@, texts, place, d as nat),
        decreases databases.len() - d,
    {
        match &databases[d] {
            Some(collections) => {
                let ghost start = plan_views(work@);
                let mut c: usize = 0;
                assert(start + planned_in(collections@, me@, texts, place, 0) =~= start);
                while c < collections.len()
                    invariant
                        c <= collections.len(),
                        texts == member_texts(members@),
                        plan_views(work@) == start + planned_in(
                            collections@,
                            me@,
                            texts,
                            place,
                            c as nat,
                        ),
                    decreases collections.len() - c,
                {
                    let collection = &collections[c];
                    if owns_collection(
                        collection.db.as_str(),
                        collection.name.as_str(),
                        me,
                        members,
                        place,
                    ) {
                        let ghost before = plan_views(work@);
                        let ghost all = indexes_of(*collection);
                        let mut i: usize = 0;
                        assert(before + all.take(0) =~= before);
                        while i < collection.ttl_indexes.len()
                            invariant
                                i <= collection.ttl_indexes.len(),
                                all == indexes_of(*collection),
                                plan_views(work@) == before + all.take(i as int),
                            decreases collection.ttl_indexes.len() - i,
                        {
                            let ghost so_far = work@;
                            let next = Expire {
                                db: collection.db.clone(),
                                collection: collection.name.clone(),
                                index: collection.ttl_indexes[i].clone(),
                            };
                            work.push(next);
                            assert(plan_views(work@) =~= plan_views(so_far).push(next@));
                            assert(all.take(i + 1) =~= all.take(i as int).push(all[i as int]));
                            assert(plan_views(work@) =~= before + all.take(i + 1));
                            i = i + 1;
                        }
                        assert(all.take(i as int) =~= all);
                        assert(plan_views(work@) =~= start + planned_in(
                            collections@,
                            me@,
                            texts,
                            place,
                            (c + 1) as nat,
                        ));
                    }
                    c = c + 1;
                }
            },
            None => {},
        }
        d = d + 1;
    }
    work
}

/// What expiring one index, or a whole pass, came to.
#[derive(Clone, Copy, Debug, PartialEq, Eq, Structural)]
pub struct ExpiryOutcome {
    pub deleted: u64,
    /// Candidates refused because the document was refreshed meanwhile.
    pub skipped: u64,
    /// Candidates declined because the index's partial filter no longer selected
    /// the document.
    pub skipped_filter: u64,
    /// A bound was reached; the rest drains at the next tick.
    pub truncated: bool,
}

/// The documents deleted by the passes that came to something.
pub open spec fn deleted_in(results: Seq<Option<ExpiryOutcome>>) -> nat
    decreases results.len(),
{
    if results.len() == 0 {
        0
    } else {
        deleted_in(results.drop_last()) + match results.last() {
            Some(outcome) => outcome.deleted as nat,
            None => 0,
        }
    }
}

/// The candidates skipped by the passes that came to something.
pub open spec fn skipped_in(results: Seq<Option<ExpiryOutcome>>) -> nat
    decreases results.len(),
{
    if results.len() == 0 {
        0
    } else {
        skipped_in(results.drop_last()) + match results.last() {
            Some(outcome) => outcome.skipped as nat,
            None => 0,
        }
    }
}

/// The candidates declined by a filter in the passes that came to something.
pub open spec fn declined_in(results: Seq<Option<ExpiryOutcome>>) -> nat
    decreases results.len(),
{
    if results.len() == 0 {
        0
    } else {
        declined_in(results.drop_last()) + match results.last() {
            Some(outcome) => outcome.skipped_filter as nat,
            None => 0,
        }
    }
}

/// The totals of a pass, from what expiring each index came to. One that failed
/// adds nothing: its documents are still there and the next tick will find them.
pub fn total(results: &Vec<Option<ExpiryOutcome>>) -> (sum: ExpiryOutcome)
    requires
        deleted_in(results@) <= u64::MAX,
        skipped_in(results@) <= u64::MAX,
        declined_in(results@) <= u64::MAX,
    ensures
        sum.deleted == deleted_in(results@),
        sum.skipped == skipped_in(results@),
        sum.skipped_filter == declined_in(results@),
        sum.truncated == exists|i: int|
            0 <= i < results@.len() && (#[trigger] results@[i]) is Some
                && results@[i]->0.truncated,
{
    let mut sum = ExpiryOutcome { deleted: 0, skipped: 0, skipped_filter: 0, truncated: false };
    let mut i: usize = 0;
    while i < results.len()
        invariant
            i <= results.len(),
            deleted_in(results@) <= u64::MAX,
            skipped_in(results@) <= u64::MAX,
            declined_in(results@) <= u64::MAX,
            sum.deleted == deleted_in(results@.take(i as int)),
            sum.skipped == skipped_in(results@.take(i as int)),
            sum.skipped_filter == declined_in(results@.take(i as int)),
            sum.truncated == exists|k: int|
                0 <= k < i && (#[trigger] results@[k]) is Some && results@[k]->0.truncated,
        decreases results.len() - i,
    {
        proof {
            assert(results@.take(i + 1).drop_last() =~= results@.take(i as int));
            assert(results@.take(i + 1).last() == results@[i as int]);
            lemma_sums_grow(results@, i + 1);
        }
        match &results[i] {
            Some(outcome) => {
                sum.deleted = sum.deleted + outcome.deleted;
                sum.skipped = sum.skipped + outcome.skipped;
                sum.skipped_filter = sum.skipped_filter + outcome.skipped_filter;
                if outcome.truncated {
                    assert(results@[i as int] is Some);
                    sum.truncated = true;
                }
            },
            None => {},
        }
        i = i + 1;
    }
    assert(results@.take(i as int) =~= results@);
    sum
}

proof fn lemma_sums_grow(results: Seq<Option<ExpiryOutcome>>, n: int)
    requires
        0 <= n <= results.len(),
    ensures
        deleted_in(results.take(n)) <= deleted_in(results),
        skipped_in(results.take(n)) <= skipped_in(results),
        declined_in(results.take(n)) <= declined_in(results),
    decreases results.len() - n,
{
    if n < results.len() {
        lemma_sums_grow(results, n + 1);
        assert(results.take(n + 1).drop_last() =~= results.take(n));
    } else {
        assert(results.take(n) =~= results);
    }
}

/// One document, one delete: among nodes that hold the same member set and are
/// in it, exactly one expires a given collection.
pub proof fn exactly_one_member_expires_a_collection(
    db: Seq<char>,
    collection: Seq<char>,
    members: Seq<Seq<char>>,
    place: spec_fn(int) -> usize,
)
    requires
        members.len() > 0,
        crate::ownership::distinct_members(members),
    ensures
        exists|i: int|
            0 <= i < members.len() && expires_here(
                db,
                collection,
                #[trigger] members[i],
                members,
                place(i),
            ),
        forall|i: int, j: int|
            0 <= i < members.len() && 0 <= j < members.len() && expires_here(
                db,
                collection,
                #[trigger] members[i],
                members,
                place(i),
            ) && expires_here(db, collection, #[trigger] members[j], members, place(j)) ==> i == j,
{
    let k = expiry_key(db, collection);
    crate::ownership::exactly_one_member_owns(k, members);
    assert forall|i: int| 0 <= i < members.len() implies expires_here(
        db,
        collection,
        #[trigger] members[i],
        members,
        place(i),
    ) == is_owner(k, members[i], members) by {
        assert(members.contains(members[i]));
    }
    let i = choose|i: int| 0 <= i < members.len() && is_owner(k, #[trigger] members[i], members);
    assert(expires_here(db, collection, members[i], members, place(i)));
}

} // verus!
