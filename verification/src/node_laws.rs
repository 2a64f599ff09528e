//! What holds of a node's own work: who does it, what is remembered of it, who may
//! ask for it, and what is kept of the asking.

use vstd::prelude::*;
use vstd::string::*;
use vstd::utf8::encode_utf8;

use crate::audit::{
    is_write, mode, record, record_vectors, set_mode, Action, AuditMode, AuditRecord, Principal,
    Provider, VectorsRecord,
};
use crate::backup::{spill_dir, spill_name, SpillStep};
use crate::error::ApiError;
use crate::exec::laws::{count_json, has_field};
use crate::expiry::{
    expires_here, key, owns_collection, plan, plan_views, planned, planned_in, total, Collection,
    Expire, ExpireView, ExpiryOutcome, DEFAULT_INTERVAL_MS,
};
use crate::federation::{
    authority, metadata_path_for, metadata_url_for, resource_path, without_slashes, Federation,
    Notice, Verified,
};
use crate::json::{json_items, Json, JsonView};
use crate::limits::{
    declared_length, drains, request_time_left, Drain, DrainCut, RequestLimits,
};
use crate::local_login::{LocalLogin, PeerAddr};
use crate::ownership::{fnv, fnv_of, hash, member_texts, owner, owner_index, owns, weight};
use crate::progress::{
    forget_progress, noted, progress_record, record_ids, string_views, union_at, union_progress,
    Delivered, Hlc, ProgressRecord, VersionVector,
};
use crate::roles::{
    create_role, delete_role, get_role, list_roles, require_server_admin, set_role_grants,
    set_user_roles, Role, RoleEdit,
};
use crate::text::decimal;

verus! {

/// Hashing takes one byte after the other: each is mixed in, and the whole
/// multiplied.
pub proof fn hashing_takes_one_byte_after_the_other(bytes: Seq<u8>, b: u8)
    ensures
        fnv(Seq::empty()) == 0xcbf2_9ce4_8422_2325u64,
        fnv(bytes.push(b)) == (fnv(bytes) ^ (b as u64)).wrapping_mul(0x100_0000_01b3u64),
{
    assert(bytes.push(b).drop_last() =~= bytes);
}

/// A member's weight for a subscription is the hash of both, with a zero byte
/// between them.
pub proof fn a_weight_is_the_hash_of_both(
    subscription: &str,
    member: &str,
    h: u64,
    bytes: &[u8],
    g: u64,
)
    requires
        call_ensures(hash, (subscription, member), h),
        call_ensures(fnv_of, (bytes,), g),
        bytes@ == encode_utf8(subscription@) + seq![0u8] + encode_utf8(member@),
    ensures
        h == g,
        g == fnv(bytes@),
{
}

/// The owner of a subscription is a member no other outweighs, and of equal ones
/// the last; where there are no members there is none. A node owns what its own
/// name is the owner of, and everything where it is alone.
pub proof fn the_owner_is_outweighed_by_no_member(
    subscription: &str,
    me: &str,
    members: Vec<String>,
    o: Option<&String>,
    mine: bool,
    j: int,
)
    requires
        call_ensures(owner, (subscription, &members), o),
        call_ensures(owns, (subscription, me, &members), mine),
        0 <= j < members@.len(),
    ensures
        o is Some,
        exists|i: int|
            0 <= i < members@.len() && (#[trigger] members@[i])@ == o->0@ && fnv(
                encode_utf8(subscription@) + seq![0u8] + encode_utf8(members@[i]@),
            ) >= fnv(encode_utf8(subscription@) + seq![0u8] + encode_utf8(members@[j]@)) && (j > i
                ==> fnv(encode_utf8(subscription@) + seq![0u8] + encode_utf8(members@[i]@)) > fnv(
                encode_utf8(subscription@) + seq![0u8] + encode_utf8(members@[j]@),
            )),
        mine <==> o->0@ == me@,
{
    let texts = member_texts(members@);
    lemma_owner_index(subscription@, texts);
    let i = owner_index(subscription@, texts);
    assert(members@[i]@ == o->0@);
    assert(texts[i] == members@[i]@ && texts[j] == members@[j]@);
}

/// A node without members owns everything, and no one else is named.
pub proof fn a_lone_node_owns_everything(
    subscription: &str,
    me: &str,
    members: Vec<String>,
    o: Option<&String>,
    mine: bool,
)
    requires
        call_ensures(owner, (subscription, &members), o),
        call_ensures(owns, (subscription, me, &members), mine),
        members@.len() == 0,
    ensures
        o is None,
        mine,
{
}

proof fn lemma_owner_index(subscription: Seq<char>, members: Seq<Seq<char>>)
    requires
        members.len() > 0,
    ensures
        ({
            let i = owner_index(subscription, members);
            &&& 0 <= i < members.len()
            &&& forall|j: int|
                0 <= j < members.len() ==> weight(subscription, members[i]) >= weight(
                    subscription,
                    #[trigger] members[j],
                )
            &&& forall|j: int|
                i < j < members.len() ==> weight(subscription, members[i]) > weight(
                    subscription,
                    #[trigger] members[j],
                )
        }),
    decreases members.len(),
{
    if members.len() > 1 {
        let front = members.drop_last();
        lemma_owner_index(subscription, front);
        let i = owner_index(subscription, members);
        assert forall|j: int| 0 <= j < members.len() implies weight(subscription, members[i])
            >= weight(subscription, #[trigger] members[j]) by {
            if j < front.len() {
                assert(front[j] == members[j]);
            }
        }
        assert forall|j: int| i < j < members.len() implies weight(subscription, members[i])
            > weight(subscription, #[trigger] members[j]) by {
            if j < front.len() {
                assert(front[j] == members[j]);
            }
        }
    }
}

/// A listed node expires a collection where it owns the collection's own key, which
/// is no subscription's.
pub proof fn a_listed_node_expires_what_it_owns(
    db: &str,
    collection: &str,
    me: &str,
    members: Vec<String>,
    place: usize,
    expires: bool,
    k: String,
    k_str: &str,
    mine: bool,
)
    requires
        call_ensures(owns_collection, (db, collection, me, &members, place), expires),
        call_ensures(key, (db, collection), k),
        call_ensures(owns, (k_str, me, &members), mine),
        k_str@ == k@,
        member_texts(members@).contains(me@),
    ensures
        expires == mine,
        k@ == "ttl\0"@ + db@ + "."@ + collection@,
{
}

/// A node alone expires everything.
pub proof fn a_lone_node_expires_everything(
    db: &str,
    collection: &str,
    me: &str,
    members: Vec<String>,
    place: usize,
    expires: bool,
)
    requires
        call_ensures(owns_collection, (db, collection, me, &members, place), expires),
        members@.len() == 0,
    ensures
        expires,
{
    let all = crate::expiry::candidates(me@, member_texts(members@), place);
    assert(all =~= seq![me@]);
}

/// Whether an index of a collection is to be expired by this node.
pub open spec fn is_to_expire(
    e: ExpireView,
    databases: Seq<Option<Vec<Collection>>>,
    me: Seq<char>,
    members: Seq<Seq<char>>,
    place: usize,
) -> bool {
    exists|d: int, c: int, i: int|
        0 <= d < databases.len() && databases[d] is Some && 0 <= c < databases[d]->0@.len() && 0
            <= i < databases[d]->0@[c].ttl_indexes@.len() && #[trigger] stands_at(
            e,
            databases[d]->0@[c],
            i,
            d,
            c,
        ) && expires_here(e.0, e.1, me, members, place)
}

/// Whether this is the index in place `i` of a collection, which stands in place
/// `c` of the database in place `d`.
pub open spec fn stands_at(e: ExpireView, collection: Collection, i: int, d: int, c: int) -> bool {
    e == (collection.db@, collection.name@, collection.ttl_indexes@[i]@)
}

/// A pass expires every index of every collection that this node expires, in every
/// database that could be listed, and no other.
pub proof fn a_pass_expires_what_this_node_owns(
    databases: Vec<Option<Vec<Collection>>>,
    me: &str,
    members: Vec<String>,
    place: usize,
    work: Vec<Expire>,
    e: ExpireView,
)
    requires
        call_ensures(plan, (&databases, me, &members, place), work),
    ensures
        plan_views(work@).contains(e) <==> is_to_expire(
            e,
            databases@,
            me@,
            member_texts(members@),
            place,
        ),
{
    lemma_planned(databases@, me@, member_texts(members@), place, databases@.len(), e);
}

proof fn lemma_planned(
    databases: Seq<Option<Vec<Collection>>>,
    me: Seq<char>,
    members: Seq<Seq<char>>,
    place: usize,
    n: nat,
    e: ExpireView,
)
    requires
        n <= databases.len(),
    ensures
        planned(databases, me, members, place, n).contains(e) <==> exists|d: int, c: int, i: int|
            0 <= d < n && databases[d] is Some && 0 <= c < databases[d]->0@.len() && 0 <= i
                < databases[d]->0@[c].ttl_indexes@.len() && #[trigger] stands_at(
                e,
                databases[d]->0@[c],
                i,
                d,
                c,
            ) && expires_here(e.0, e.1, me, members, place),
    decreases n,
{
    if n > 0 {
        lemma_planned(databases, me, members, place, (n - 1) as nat, e);
        let before = planned(databases, me, members, place, (n - 1) as nat);
        let all = planned(databases, me, members, place, n);
        if databases[n - 1] is Some {
            let cs = databases[n - 1]->0@;
            lemma_planned_in(cs, me, members, place, cs.len(), e, n - 1);
            let more = planned_in(cs, me, members, place, cs.len());
            lemma_contains_concat(before, more, e);
            assert(all == before + more);
            if more.contains(e) {
                let (c, i) = choose|c: int, i: int|
                    0 <= c < cs.len() && 0 <= i < cs[c].ttl_indexes@.len() && #[trigger] stands_at(
                        e,
                        cs[c],
                        i,
                        n - 1,
                        c,
                    ) && expires_here(e.0, e.1, me, members, place);
                assert(stands_at(e, databases[n - 1]->0@[c], i, n - 1, c));
            }
        }
    }
}

proof fn lemma_contains_concat(a: Seq<ExpireView>, b: Seq<ExpireView>, e: ExpireView)
    ensures
        (a + b).contains(e) <==> a.contains(e) || b.contains(e),
{
    let all = a + b;
    if all.contains(e) {
        let i = choose|i: int| 0 <= i < all.len() && all[i] == e;
        if i < a.len() {
            assert(a[i] == e);
        } else {
            assert(b[i - a.len()] == e);
        }
    }
    if a.contains(e) {
        let i = choose|i: int| 0 <= i < a.len() && a[i] == e;
        assert(all[i] == e);
    }
    if b.contains(e) {
        let i = choose|i: int| 0 <= i < b.len() && b[i] == e;
        assert(all[a.len() + i] == e);
    }
}

proof fn lemma_planned_in(
    cs: Seq<Collection>,
    me: Seq<char>,
    members: Seq<Seq<char>>,
    place: usize,
    n: nat,
    e: ExpireView,
    d: int,
)
    requires
        n <= cs.len(),
    ensures
        planned_in(cs, me, members, place, n).contains(e) <==> exists|c: int, i: int|
            0 <= c < n && 0 <= i < cs[c].ttl_indexes@.len() && #[trigger] stands_at(
                e,
                cs[c],
                i,
                d,
                c,
            ) && expires_here(e.0, e.1, me, members, place),
    decreases n,
{
    if n > 0 {
        lemma_planned_in(cs, me, members, place, (n - 1) as nat, e, d);
        let before = planned_in(cs, me, members, place, (n - 1) as nat);
        let c = cs[n - 1];
        let own = crate::expiry::indexes_of(c);
        lemma_contains_concat(before, own, e);
        if own.contains(e) {
            let i = choose|i: int| 0 <= i < own.len() && own[i] == e;
            assert(stands_at(e, cs[n - 1], i, d, n - 1));
        }
        assert forall|i: int| 0 <= i < c.ttl_indexes@.len() && #[trigger] stands_at(e, c, i, d, n - 1)
            implies own.contains(e) by {
            assert(own[i] == e);
        }
    }
}

/// What a pass came to is what each index came to, added up: one more adds its own
/// counts, and one that failed adds nothing.
pub proof fn a_pass_adds_up(
    results: Vec<Option<ExpiryOutcome>>,
    more: Vec<Option<ExpiryOutcome>>,
    sum: ExpiryOutcome,
    larger: ExpiryOutcome,
)
    requires
        call_ensures(total, (&results,), sum),
        call_ensures(total, (&more,), larger),
        more@.len() == results@.len() + 1,
        more@.drop_last() == results@,
    ensures
        results@.len() == 0 ==> sum == (ExpiryOutcome {
            deleted: 0,
            skipped: 0,
            skipped_filter: 0,
            truncated: false,
        }),
        more@.last() is None ==> larger.deleted == sum.deleted && larger.skipped == sum.skipped
            && larger.skipped_filter == sum.skipped_filter && larger.truncated == sum.truncated,
        more@.last() is Some ==> {
            let last = more@.last()->0;
            &&& larger.deleted == sum.deleted + last.deleted
            &&& larger.skipped == sum.skipped + last.skipped
            &&& larger.skipped_filter == sum.skipped_filter + last.skipped_filter
            &&& larger.truncated == (sum.truncated || last.truncated)
        },
{
    let n = results@.len() as int;
    assert forall|i: int| 0 <= i < n implies more@[i] == #[trigger] results@[i] by {
        assert(more@.drop_last()[i] == results@[i]);
    }
    if sum.truncated {
        let i = choose|i: int|
            0 <= i < results@.len() && (#[trigger] results@[i]) is Some
                && results@[i]->0.truncated;
        assert(more@[i] is Some && more@[i]->0.truncated);
    }
    if larger.truncated {
        let i = choose|i: int|
            0 <= i < more@.len() && (#[trigger] more@[i]) is Some && more@[i]->0.truncated;
        if i < n {
            assert(results@[i] is Some && results@[i]->0.truncated);
        }
    }
    if more@.last() is Some && more@.last()->0.truncated {
        assert(more@[n] is Some && more@[n]->0.truncated);
    }
}

/// Whether a record says that a change of a node was delivered to a subscription.
pub open spec fn says(
    record: ProgressRecord,
    subscription: Seq<char>,
    k: int,
    node: Seq<char>,
) -> bool {
    &&& record.id is Some
    &&& crate::text::begins_with(record.id->0@, subscription + ":"@)
    &&& 0 <= k < record.delivered@.len()
    &&& record.delivered@[k].node is Some && record.delivered@[k].node->0@ == node
    &&& record.delivered@[k].hlc is Some
}

/// What a cluster has delivered of a node is the newest that any record of the
/// subscription says: none says more, and it is what one of them says, or nothing.
pub proof fn a_union_is_the_newest_that_any_record_says(
    records: Vec<ProgressRecord>,
    subscription: &str,
    union: VersionVector,
    node: Seq<char>,
    r: int,
    k: int,
)
    requires
        call_ensures(union_progress, (&records, subscription), union),
        0 <= r < records@.len(),
    ensures
        says(records@[r], subscription@, k, node) ==> {
            let said = records@[r].delivered@[k].hlc->0;
            let known = union.at(node);
            known == said || said.wall_ms < known.wall_ms || (said.wall_ms == known.wall_ms
                && said.logical < known.logical)
        },
        union.at(node) == (Hlc { wall_ms: 0, logical: 0 }) || exists|r: int, k: int|
            0 <= r < records@.len() && #[trigger] says(records@[r], subscription@, k, node)
                && records@[r].delivered@[k].hlc == Some(union.at(node)),
{
    lemma_union(records@, subscription@, node, records@.len());
    assert(union.at(node) == union_at(records@, subscription@, node, records@.len()));
    if says(records@[r], subscription@, k, node) {
        lemma_noted(records@[r].delivered@, node, records@[r].delivered@.len());
    }
}

proof fn lemma_union(
    records: Seq<ProgressRecord>,
    subscription: Seq<char>,
    node: Seq<char>,
    n: nat,
)
    requires
        n <= records.len(),
    ensures
        ({
            let known = union_at(records, subscription, node, n);
            &&& forall|r: int|
                0 <= r < n ==> !known.before(
                    crate::progress::delivered_in(#[trigger] records[r], subscription, node),
                )
            &&& known == (Hlc { wall_ms: 0, logical: 0 }) || exists|r: int, k: int|
                0 <= r < n && #[trigger] says(records[r], subscription, k, node)
                    && records[r].delivered@[k].hlc == Some(known)
        }),
    decreases n,
{
    if n > 0 {
        lemma_union(records, subscription, node, (n - 1) as nat);
        let before = union_at(records, subscription, node, (n - 1) as nat);
        let record = records[n - 1];
        let own = crate::progress::delivered_in(record, subscription, node);
        lemma_noted(record.delivered@, node, record.delivered@.len());
        let known = union_at(records, subscription, node, n);
        if known == own && known != before && crate::progress::is_record_of(
            record,
            subscription,
        ) && own != (Hlc { wall_ms: 0, logical: 0 }) {
            let k = choose|k: int|
                0 <= k < record.delivered@.len() && crate::progress::notes(
                    #[trigger] record.delivered@[k],
                    node,
                ) && record.delivered@[k].hlc == Some(own);
            assert(says(records[n - 1], subscription, k, node));
        } else if known == before && before != (Hlc { wall_ms: 0, logical: 0 }) {
            let (r, k) = choose|r: int, k: int|
                0 <= r < n - 1 && #[trigger] says(records[r], subscription, k, node)
                    && records[r].delivered@[k].hlc == Some(before);
            assert(says(records[r], subscription, k, node));
        }
    }
}

proof fn lemma_noted(entries: Seq<Delivered>, node: Seq<char>, n: nat)
    requires
        n <= entries.len(),
    ensures
        ({
            let known = noted(entries, node, n);
            &&& forall|k: int|
                0 <= k < n && crate::progress::notes(#[trigger] entries[k], node)
                    ==> !known.before(entries[k].hlc->0)
            &&& known == (Hlc { wall_ms: 0, logical: 0 }) || exists|k: int|
                0 <= k < n && crate::progress::notes(#[trigger] entries[k], node)
                    && entries[k].hlc == Some(known)
        }),
    decreases n,
{
    if n > 0 {
        lemma_noted(entries, node, (n - 1) as nat);
        let before = noted(entries, node, (n - 1) as nat);
        let known = noted(entries, node, n);
        if known == before && before != (Hlc { wall_ms: 0, logical: 0 }) {
            let k = choose|k: int|
                0 <= k < n - 1 && crate::progress::notes(#[trigger] entries[k], node)
                    && entries[k].hlc == Some(before);
            assert(crate::progress::notes(entries[k], node));
        } else if known != before {
            assert(crate::progress::notes(entries[n - 1], node));
        }
    }
}

/// Forgetting a subscription names the records of every node for it, and of no
/// other subscription.
pub proof fn forgetting_names_every_record_of_a_subscription(
    records: Vec<ProgressRecord>,
    subscription: &str,
    stale: Vec<String>,
)
    requires
        call_ensures(forget_progress, (&records, subscription), stale),
    ensures
        string_views(stale@) == of_subscription(records@, subscription@).map_values(
            |r: ProgressRecord| r.id->0@,
        ),
{
    lemma_record_ids(records@, subscription@, records@.len());
    assert(records@.take(records@.len() as int) =~= records@);
}

/// The records of a subscription: those whose id starts with its own and a colon.
pub open spec fn of_subscription(
    records: Seq<ProgressRecord>,
    subscription: Seq<char>,
) -> Seq<ProgressRecord> {
    records.filter(
        |r: ProgressRecord|
            r.id is Some && crate::text::begins_with(r.id->0@, subscription + ":"@),
    )
}

proof fn lemma_record_ids(records: Seq<ProgressRecord>, subscription: Seq<char>, n: nat)
    requires
        n <= records.len(),
    ensures
        record_ids(records, subscription, n) == of_subscription(
            records.take(n as int),
            subscription,
        ).map_values(|r: ProgressRecord| r.id->0@),
    decreases n,
{
    reveal(Seq::filter);
    let id = |r: ProgressRecord| r.id->0@;
    if n > 0 {
        lemma_record_ids(records, subscription, (n - 1) as nat);
        assert(records.take(n as int).drop_last() =~= records.take(n - 1));
        let before = of_subscription(records.take(n - 1), subscription);
        let after = of_subscription(records.take(n as int), subscription);
        if crate::progress::is_record_of(records[n - 1], subscription) {
            assert(after == before.push(records[n - 1]));
            assert(after.map_values(id) =~= before.map_values(id).push(records[n - 1].id->0@));
        } else {
            assert(after == before);
        }
    } else {
        assert(of_subscription(records.take(0), subscription).map_values(id) =~= Seq::<
            Seq<char>,
        >::empty());
    }
}

/// A node's record for a subscription is named by both, and holds what was
/// delivered.
pub proof fn a_record_is_named_by_its_subscription_and_its_node(
    subscription: &str,
    node: &str,
    progress: VersionVector,
    record: ProgressRecord,
    i: int,
)
    requires
        call_ensures(progress_record, (subscription, node, &progress), record),
        0 <= i < progress.entries@.len(),
    ensures
        record.id is Some && record.id->0@ == subscription@ + ":"@ + node@,
        record.delivered@.len() == progress.entries@.len(),
        record.delivered@[i].node is Some && record.delivered@[i].node->0@
            == progress.entries@[i].0@,
        record.delivered@[i].hlc == Some(progress.entries@[i].1),
{
    assert(progress.view()[i] == (progress.entries@[i].0@, progress.entries@[i].1));
}

/// Noting a change keeps the later of what is known and what is noted, of its own
/// node alone.
pub proof fn noting_keeps_the_later(v: &mut VersionVector, node: &str, hlc: Hlc, other: Seq<char>)
    requires
        call_ensures(VersionVector::observe, (v, node, hlc), ()),
    ensures
        other != node@ ==> final(v).at(other) == old(v).at(other),
        final(v).at(node@) == hlc || final(v).at(node@) == old(v).at(node@),
        final(v).at(node@) == hlc || old(v).at(node@).wall_ms > hlc.wall_ms || (old(v).at(
            node@,
        ).wall_ms == hlc.wall_ms && old(v).at(node@).logical >= hlc.logical),
        final(v).at(node@) == old(v).at(node@) || old(v).at(node@).wall_ms < hlc.wall_ms || (old(
            v,
        ).at(node@).wall_ms == hlc.wall_ms && old(v).at(node@).logical < hlc.logical),
{
    assert(final(v).at(node@) == old(v).at(node@).later(hlc));
    assert(other != node@ ==> final(v).at(other) == old(v).at(other));
}

/// A request has what is left until its deadline, and nothing once that has passed.
pub proof fn a_request_has_what_is_left(deadline: Option<u64>, now: u64, left: Option<u64>)
    requires
        call_ensures(request_time_left, (deadline, now), left),
    ensures
        left is Some <==> deadline is Some,
        left is Some && deadline->0 >= now ==> now + left->0 == deadline->0,
        left is Some && deadline->0 < now ==> left->0 == 0,
{
}

/// A refused body is drained where it was refused for its size and has not ended:
/// what it declared and was not read yet, four megabytes at the most.
pub proof fn a_refused_body_is_drained_to_its_end_or_the_cap(
    status: u16,
    ended: bool,
    b: bool,
    declared: Option<usize>,
    read: usize,
    drain: Drain,
)
    requires
        call_ensures(drains, (status, ended), b),
        call_ensures(Drain::new, (declared, read), drain),
    ensures
        b <==> status == 413 && !ended,
        drain.drained == 0,
        drain.bound <= 4_194_304,
        declared is None ==> drain.bound == 4_194_304,
        declared is Some && declared->0 <= read ==> drain.bound == 0,
        declared is Some && read < declared->0 <= read + 4_194_304 ==> drain.bound + read
            == declared->0,
        declared is Some && declared->0 > read + 4_194_304 ==> drain.bound == 4_194_304,
{
}

/// A drain goes on until its bound, counts what it takes, and says what cut it off.
pub proof fn a_drain_counts_what_it_takes(
    drain: &mut Drain,
    len: usize,
    more: bool,
    timed_out: bool,
    ended: bool,
    cut: Option<DrainCut>,
)
    requires
        call_ensures(Drain::took, (drain, len), ()),
        call_ensures(Drain::wants_more, (final(drain),), more),
        call_ensures(Drain::cut, (final(drain), timed_out, ended), cut),
        old(drain).drained + len <= usize::MAX,
    ensures
        final(drain).drained == old(drain).drained + len,
        final(drain).bound == old(drain).bound,
        more <==> final(drain).drained < final(drain).bound,
        timed_out ==> cut == Some(DrainCut::Deadline),
        !timed_out && !more && !ended ==> cut == Some(DrainCut::Cap),
        !timed_out && (more || ended) ==> cut is None,
{
}

/// A length that is declared in decimal is that length.
pub proof fn a_declared_length_is_read(header: &str, n: usize, length: Option<usize>)
    requires
        call_ensures(declared_length, (header,), length),
        header@ == decimal(n as nat),
    ensures
        length == Some(n),
{
    crate::text::decimal_reads_back(n as nat);
}

/// What is recorded of a decision: nothing where auditing is off, every denial where
/// it is not, every change of state besides in the mode for writes, and everything in
/// the last. A line says who asked for what, of what, and what was decided.
pub proof fn a_decision_is_recorded_as_the_mode_says(
    m: AuditMode,
    principal: Principal,
    action: Action,
    db: &str,
    collection: Option<&str>,
    allowed: bool,
    line: Option<AuditRecord>,
)
    requires
        call_ensures(record, (m, &principal, action, db, collection, allowed), line),
    ensures
        m == AuditMode::Off ==> line is None,
        m == AuditMode::All ==> line is Some,
        m != AuditMode::Off && !allowed ==> line is Some,
        m == AuditMode::Denials && allowed ==> line is None,
        m == AuditMode::Writes && allowed ==> (line is Some <==> action == Action::Write || action
            == Action::Ddl || action == Action::Admin),
        line is Some ==> {
            let r = line->0;
            &&& r.user@ == principal.user@
            &&& r.unauthenticated == principal.unauthenticated
            &&& r.federated == principal.federated
            &&& r.action == action
            &&& r.db@ == db@
            &&& r.allowed == allowed
            &&& collection is Some ==> r.collection@ == collection->0@
            &&& collection is None ==> r.collection@ == "*"@
            &&& r.display is Some <==> principal.display is Some && principal.display->0@
                != principal.user@
        },
{
}

/// A line says its decision in words.
pub proof fn a_decision_is_said_in_words(r: AuditRecord, word: &'static str, a: Action, w: bool)
    requires
        call_ensures(AuditRecord::decision, (&r,), word),
        call_ensures(is_write, (a,), w),
    ensures
        r.allowed ==> word@ == "allow"@,
        !r.allowed ==> word@ == "deny"@,
        w <==> a == Action::Write || a == Action::Ddl || a == Action::Admin,
{
}

/// The names of the modes, and what an unknown number stands for.
pub proof fn an_audit_mode_has_one_name(
    m: AuditMode,
    name: &'static str,
    code: u8,
    back: AuditMode,
    parsed: Result<AuditMode, String>,
    cell: &mut u8,
)
    requires
        call_ensures(AuditMode::name, (m,), name),
        call_ensures(AuditMode::as_u8, (m,), code),
        call_ensures(AuditMode::from_u8, (code,), back),
        call_ensures(AuditMode::parse, (name,), parsed),
        call_ensures(set_mode, (cell, m), ()),
    ensures
        m == AuditMode::Off ==> name@ == "off"@,
        m == AuditMode::Denials ==> name@ == "denials"@,
        m == AuditMode::Writes ==> name@ == "writes"@,
        m == AuditMode::All ==> name@ == "all"@,
        back == m,
        parsed is Ok && parsed->Ok_0 == m,
        *final(cell) == code,
{
    if parsed is Ok {
        crate::audit::audit_modes_round_trip(parsed->Ok_0, m);
    }
    crate::audit::audit_modes_round_trip(back, m);
    assert(m.word() == name@);
}

/// A change to where vectors come from is recorded with who made it and where they
/// come from now: by host and by the name of a variable, never by a key.
pub proof fn a_vector_change_is_recorded(
    principal: Principal,
    action: &str,
    db: &str,
    collection: &str,
    provider: Option<&Provider>,
    r: VectorsRecord,
)
    requires
        call_ensures(record_vectors, (&principal, action, db, collection, provider), r),
    ensures
        r.user@ == principal.user@,
        r.action@ == action@ && r.db@ == db@ && r.collection@ == collection@,
        provider is None ==> r.provider is None && r.endpoint_host is None && r.profile is None
            && r.api_key_env is None,
        provider is Some ==> r.provider is Some && r.provider->0@ == provider->0.name@,
        provider is Some && provider->0.endpoint_host is Some ==> r.endpoint_host is Some
            && r.endpoint_host->0@ == provider->0.endpoint_host->0@,
        provider is Some && provider->0.profile is Some ==> r.profile is Some && r.profile->0@
            == provider->0.profile->0@,
        provider is Some && provider->0.api_key_env is Some ==> r.api_key_env is Some
            && r.api_key_env->0@ == provider->0.api_key_env->0@,
{
}

/// A local login is open to every caller, to those of this host, or to none; a
/// refusal of the second kind says that it is forbidden, one of the last that there
/// is no such thing.
pub proof fn a_local_login_is_open_to_whom_the_mode_says(
    m: LocalLogin,
    peer: Option<PeerAddr>,
    answer: Result<(), ApiError>,
    near: bool,
)
    requires
        call_ensures(LocalLogin::admits, (m, peer), answer),
        peer is Some ==> call_ensures(PeerAddr::is_loopback, (&peer->0,), near),
    ensures
        m == LocalLogin::Always ==> answer is Ok,
        m == LocalLogin::Disabled ==> answer is Err && answer->Err_0.status == 404,
        m == LocalLogin::LoopbackOnly && peer is None ==> answer is Err,
        m == LocalLogin::LoopbackOnly && peer is Some ==> (answer is Ok <==> near),
        m == LocalLogin::LoopbackOnly && answer is Err ==> answer->Err_0.status == 403,
        peer is Some && peer->0 is V4 ==> (near <==> peer->0->V4_0@[0] == 127),
        peer is Some && peer->0 is V6 ==> (near <==> (forall|i: int|
            0 <= i < 7 ==> #[trigger] peer->0->V6_0@[i] == 0) && peer->0->V6_0@[7] == 1),
{
    if peer is Some && peer->0 is V6 {
        let s = peer->0->V6_0@;
        if (forall|i: int| 0 <= i < 7 ==> #[trigger] s[i] == 0) && s[7] == 1 {
            assert(s =~= seq![0u16, 0, 0, 0, 0, 0, 0, 1]);
        }
        if s == seq![0u16, 0, 0, 0, 0, 0, 0, 1] {
            assert forall|i: int| 0 <= i < 7 implies #[trigger] s[i] == 0 by {}
        }
    }
}

/// The names of the login modes.
pub proof fn a_login_mode_has_one_name(
    m: LocalLogin,
    name: &'static str,
    parsed: Result<LocalLogin, String>,
)
    requires
        call_ensures(LocalLogin::name, (m,), name),
        call_ensures(LocalLogin::parse, (name,), parsed),
    ensures
        m == LocalLogin::Always ==> name@ == "always"@,
        m == LocalLogin::LoopbackOnly ==> name@ == "loopback_only"@,
        m == LocalLogin::Disabled ==> name@ == "disabled"@,
        parsed is Ok && parsed->Ok_0 == m,
{
    if parsed is Ok {
        crate::local_login::local_login_names_are_distinct(parsed->Ok_0, m);
    }
    assert(m.word() == name@);
}

/// Roles are for the administrator of everything. Editing or deleting one ends the
/// session of every holder, and of no one else; a user's new roles end their own.
pub proof fn a_role_edit_ends_its_holders_sessions(
    all: bool,
    admin: Result<(), ApiError>,
    deleted: bool,
    holders: Vec<String>,
    deletion: RoleEdit,
    name: &str,
    grants: RoleEdit,
    user: RoleEdit,
)
    requires
        call_ensures(require_server_admin, (all,), admin),
        call_ensures(delete_role, (deleted, holders), deletion),
        call_ensures(set_role_grants, (name, holders), grants),
        call_ensures(set_user_roles, (name,), user),
    ensures
        admin is Ok <==> all,
        admin is Err ==> admin->Err_0.status == 403,
        deletion.evict == holders,
        has_field(deletion.body@, "deleted"@, JsonView::Bool(deleted)),
        has_field(deletion.body@, "invalidated"@, count_json(holders@.len() as u64)),
        grants.evict == holders,
        has_field(grants.body@, "updated"@, JsonView::String(name@)),
        has_field(grants.body@, "invalidated"@, count_json(holders@.len() as u64)),
        user.evict@.len() == 1 && user.evict@[0]@ == name@,
        has_field(user.body@, "updated"@, JsonView::String(name@)),
{
    reveal_strlit("deleted");
    reveal_strlit("invalidated");
    reveal_strlit("updated");
    let len: usize = holders.len();
    let d = deletion.body@->Object_0;
    let g = grants.body@->Object_0;
    let u = user.body@->Object_0;
    assert(d[0].0 == "deleted"@ && d[1].0 == "invalidated"@);
    assert(g[0].0 == "updated"@ && g[1].0 == "invalidated"@);
    assert(u[0].0 == "updated"@);
}

/// A role is shown by its name and its grants, and one that is not there is missing.
pub proof fn a_role_is_shown_as_it_is(
    role: Role,
    created: (u16, Json),
    name: &str,
    found: Option<Role>,
    got: Result<Json, ApiError>,
    roles: Vec<Json>,
    listed: Json,
)
    requires
        call_ensures(create_role, (role,), created),
        call_ensures(get_role, (name, found), got),
        call_ensures(list_roles, (roles,), listed),
    ensures
        created.0 == 201,
        has_field(created.1@, "role"@, JsonView::String(role.name@)),
        has_field(created.1@, "grants"@, role.grants@),
        got is Ok <==> found is Some,
        got is Ok ==> has_field(got->Ok_0@, "role"@, JsonView::String(found->0.name@))
            && has_field(got->Ok_0@, "grants"@, found->0.grants@),
        got is Err ==> got->Err_0.status == 404,
        has_field(listed@, "roles"@, JsonView::Array(json_items(roles@))),
{
    reveal_strlit("role");
    reveal_strlit("grants");
    let c = created.1@->Object_0;
    assert(c[0].0 == "role"@ && c[1].0 == "grants"@);
    if got is Ok {
        let g = got->Ok_0@->Object_0;
        assert(g[0].0 == "role"@ && g[1].0 == "grants"@);
    }
    assert(listed@->Object_0[0].0 == "roles"@);
}

/// A backup spills beside its file, or here where that has no directory, under a
/// name of its own process and count.
pub proof fn a_backup_spills_beside_its_file(
    parent: Option<&str>,
    dir: String,
    process: u32,
    n: u64,
    name: String,
)
    requires
        call_ensures(spill_dir, (parent,), dir),
        call_ensures(spill_name, (process, n), name),
    ensures
        parent is Some && parent->0@.len() > 0 ==> dir@ == parent->0@,
        parent is None || parent->0@.len() == 0 ==> dir@ == "."@,
        name@ == ".kimmy-backup-"@ + decimal(process as nat) + "-"@ + decimal(n as nat)
            + ".spill"@,
{
}

/// A failed spill names its directory, its step and its cause.
pub proof fn a_failed_spill_says_where_and_why(step: SpillStep, dir: &str, text: String)
    requires
        call_ensures(SpillStep::message, (&step, dir), text),
    ensures
        step is Creating ==> text@ == "spilling a backup into "@ + dir@ + ": "@
            + ("creating the file a backup spills into: "@ + step->Creating_0@),
        step is Walking ==> text@ == "spilling a backup into "@ + dir@ + ": "@
            + step->Walking_0@,
        step is Writing ==> text@ == "spilling a backup into "@ + dir@ + ": "@
            + ("writing a backup: "@ + step->Writing_0@),
        step is Rewinding ==> text@ == "spilling a backup into "@ + dir@ + ": "@
            + ("rewinding a backup: "@ + step->Rewinding_0@),
{
}

/// A key set is asked for at most once in thirty seconds, and the operator warned of
/// a lifetime at most once a minute; neither holds the other back, and a token that
/// is settled does neither.
pub proof fn a_federation_asks_and_warns_within_its_limits(
    f: &mut Federation,
    outcome: Verified,
    now: u64,
    notice: Notice,
)
    requires
        call_ensures(Federation::verify, (f, &outcome, now), notice),
    ensures
        outcome is Settled ==> notice is Nothing && *final(f) == *old(f),
        notice is RequestRefresh ==> outcome is UnknownSigningKey && final(f).last_nudge
            == Some(now),
        notice is Warn ==> (outcome is TokenLifetimeExceeded || outcome is TokenLifetimeUnbounded)
            && final(f).last_lifetime_warning == Some(now),
        outcome is UnknownSigningKey ==> (notice is RequestRefresh <==> old(f).last_nudge is None
            || old(f).last_nudge->0 + 30_000 <= now),
        outcome is TokenLifetimeExceeded || outcome is TokenLifetimeUnbounded ==> (
        notice is Warn <==> old(f).last_lifetime_warning is None || old(
            f,
        ).last_lifetime_warning->0 + 60_000 <= now),
        !(notice is RequestRefresh) ==> final(f).last_nudge == old(f).last_nudge,
        !(notice is Warn) ==> final(f).last_lifetime_warning == old(f).last_lifetime_warning,
        final(f).issuer == old(f).issuer,
        final(f).resource_identifier == old(f).resource_identifier,
        final(f).allow_federated_admin == old(f).allow_federated_admin,
        final(f).key_count == old(f).key_count,
{
}

/// Adopting keys changes nothing but how many there are.
pub proof fn adopting_keys_changes_nobodys_standing(f: &mut Federation, keys: usize)
    requires
        call_ensures(Federation::install_keys, (f, keys), ()),
    ensures
        *final(f) == (Federation { key_count: keys, ..*old(f) }),
{
}

/// Where a resource's metadata lives: the well-known path goes in between its host
/// and its own path, with the slashes at its end left off.
pub proof fn metadata_lives_under_the_well_known_path(
    resource: &str,
    path: String,
    url: String,
)
    requires
        call_ensures(metadata_path_for, (resource,), path),
        call_ensures(metadata_url_for, (resource,), url),
    ensures
        exists|host: Seq<char>, own: Seq<char>| #[trigger]
            is_cut(resource@, host, own) && path@ == "/.well-known/oauth-protected-resource"@
                + own && url@ == host + path@,
{
    crate::federation::metadata_path_is_inserted(resource@);
    lemma_without_slashes(resource@);
    lemma_host_has_no_path(resource@);
    assert(is_cut(resource@, authority(resource@), resource_path(resource@)));
}

/// Whether a resource is a host and a path of its own, up to the slashes at its end:
/// the path starts with a slash where there is one, and the host of an https address
/// holds none behind its scheme.
pub open spec fn is_cut(resource: Seq<char>, host: Seq<char>, own: Seq<char>) -> bool {
    &&& resource.len() >= (host + own).len()
    &&& resource.take((host + own).len() as int) == host + own
    &&& forall|i: int| (host + own).len() <= i < resource.len() ==> #[trigger] resource[i] == '/'
    &&& (host + own).len() > 0 ==> (host + own).last() != '/'
    &&& own.len() > 0 ==> own[0] == '/'
    &&& crate::text::begins_with(host + own, "https://"@) ==> forall|i: int|
        8 <= i < host.len() ==> #[trigger] host[i] != '/'
}

proof fn lemma_without_slashes(s: Seq<char>)
    ensures
        ({
            let t = without_slashes(s);
            &&& t.len() <= s.len()
            &&& s.take(t.len() as int) == t
            &&& forall|i: int| t.len() <= i < s.len() ==> #[trigger] s[i] == '/'
            &&& t.len() > 0 ==> t.last() != '/'
        }),
    decreases s.len(),
{
    let t = without_slashes(s);
    if s.len() > 0 && s.last() == '/' {
        lemma_without_slashes(s.drop_last());
        assert(s.take(t.len() as int) =~= s.drop_last().take(t.len() as int));
        assert forall|i: int| t.len() <= i < s.len() implies #[trigger] s[i] == '/' by {
            if i < s.len() - 1 {
                assert(s.drop_last()[i] == s[i]);
            }
        }
    } else {
        assert(s.take(s.len() as int) =~= s);
    }
}

proof fn lemma_first_slash(s: Seq<char>)
    ensures
        0 <= crate::federation::first_slash(s) <= s.len(),
        forall|i: int| 0 <= i < crate::federation::first_slash(s) ==> #[trigger] s[i] != '/',
    decreases s.len(),
{
    if s.len() > 0 && s[0] != '/' {
        lemma_first_slash(s.skip(1));
        assert forall|i: int| 0 <= i < crate::federation::first_slash(s) implies #[trigger] s[i]
            != '/' by {
            if i > 0 {
                assert(s.skip(1)[i - 1] == s[i]);
            }
        }
    }
}

proof fn lemma_host_has_no_path(resource: Seq<char>)
    ensures
        crate::text::begins_with(without_slashes(resource), "https://"@) ==> forall|i: int|
            8 <= i < authority(resource).len() ==> #[trigger] authority(resource)[i] != '/',
{
    let t = without_slashes(resource);
    reveal_strlit("https://");
    if crate::text::begins_with(t, "https://"@) {
        lemma_first_slash(t.skip(8));
        let host = authority(resource);
        assert forall|i: int| 8 <= i < host.len() implies #[trigger] host[i] != '/' by {
            assert(t.skip(8)[i - 8] == t[i]);
        }
    }
}

/// A resource's metadata names it, the one server it trusts, and how a token is to
/// be sent; a node without a resource has none.
pub proof fn metadata_names_the_resource_and_its_server(
    f: Federation,
    document: Option<Json>,
    url: Option<String>,
    path: Option<String>,
)
    requires
        call_ensures(Federation::protected_resource_metadata, (&f,), document),
        call_ensures(Federation::resource_metadata_url, (&f,), url),
        call_ensures(Federation::resource_metadata_path, (&f,), path),
    ensures
        document is Some <==> f.resource_identifier is Some,
        url is Some <==> f.resource_identifier is Some,
        path is Some <==> f.resource_identifier is Some,
        document is Some ==> has_field(
            document->0@,
            "resource"@,
            JsonView::String(f.resource_identifier->0@),
        ) && has_field(
            document->0@,
            "authorization_servers"@,
            JsonView::Array(seq![JsonView::String(f.issuer@)]),
        ) && has_field(
            document->0@,
            "bearer_methods_supported"@,
            JsonView::Array(seq![JsonView::String("header"@)]),
        ),
{
    reveal_strlit("resource");
    reveal_strlit("authorization_servers");
    reveal_strlit("bearer_methods_supported");
    if document is Some {
        let m = document->0@->Object_0;
        assert(m[0].0 == "resource"@ && m[1].0 == "authorization_servers"@ && m[2].0
            == "bearer_methods_supported"@);
    }
}

/// What a node starts with where nothing is configured: half a minute to a request,
/// two megabytes to a body, and a minute between expiry passes.
pub proof fn what_a_node_starts_with(limits: RequestLimits)
    requires
        call_ensures(RequestLimits::default, (), limits),
    ensures
        limits.request_timeout_ms == 30_000,
        limits.max_body_bytes == 2_097_152,
        DEFAULT_INTERVAL_MS == 60_000,
{
}

/// One reading is before another by its wall time, and by its count at one time.
pub proof fn a_reading_is_before_another_by_time_and_count(a: Hlc, b: Hlc, before: bool, zero: Hlc)
    requires
        call_ensures(Hlc::is_before, (&a, &b), before),
        call_ensures(Hlc::zero, (), zero),
    ensures
        a.wall_ms < b.wall_ms ==> before,
        a.wall_ms > b.wall_ms ==> !before,
        a.wall_ms == b.wall_ms ==> (before <==> a.logical < b.logical),
        zero.wall_ms == 0,
        zero.logical == 0,
{
}

/// A permit to warn of a lifetime is given once a minute, and taken by being given.
pub proof fn a_permit_to_warn_is_given_once_a_minute(f: &mut Federation, now: u64, granted: bool)
    requires
        call_ensures(Federation::take_lifetime_warning_permit, (f, now), granted),
    ensures
        granted <==> old(f).last_lifetime_warning is None || old(f).last_lifetime_warning->0
            + 60_000 <= now,
        granted ==> final(f).last_lifetime_warning == Some(now),
        !granted ==> final(f).last_lifetime_warning == old(f).last_lifetime_warning,
        final(f).last_nudge == old(f).last_nudge,
{
}

} // verus!
