//! Which node delivers a given subscription.
//!
//! The owner is a pure function of the subscription id and the live member
//! set. Every node computes it independently and gets the same answer; there
//! is no vote and no coordinator. Different subscriptions land on different
//! nodes, so the work spreads.
//!
//! The hash is taken per member and the highest wins, so a member that leaves
//! moves only the subscriptions that belonged to it, where a modulo over the
//! member count would shuffle almost all of them.
//!
//! A member is given by the text that names it, and a member set by the texts
//! of its members in the members' own ascending order.

use vstd::prelude::*;
use vstd::string::*;
use vstd::utf8::encode_utf8;

verus! {

/// FNV-1a over bytes.
pub open spec fn fnv(bytes: Seq<u8>) -> u64
    decreases bytes.len(),
{
    if bytes.len() == 0 {
        0xcbf2_9ce4_8422_2325
    } else {
        (fnv(bytes.drop_last()) ^ bytes.last() as u64).wrapping_mul(0x100_0000_01b3)
    }
}

/// What is hashed of a subscription and a member. A separator stands between
/// them: without it ("ab", "c") and ("a", "bc") would be the same bytes.
pub open spec fn hashed_bytes(subscription: Seq<char>, member: Seq<char>) -> Seq<u8> {
    encode_utf8(subscription) + seq![0u8] + encode_utf8(member)
}

/// A member's weight for a subscription.
pub open spec fn weight(subscription: Seq<char>, member: Seq<char>) -> u64 {
    fnv(hashed_bytes(subscription, member))
}

/// Where the owner of a subscription stands: the member with the highest
/// weight, and the last of them in the members' order where several share it.
pub open spec fn owner_index(subscription: Seq<char>, members: Seq<Seq<char>>) -> int
    decreases members.len(),
{
    if members.len() <= 1 {
        0
    } else {
        let before = owner_index(subscription, members.drop_last());
        if weight(subscription, members[before]) <= weight(subscription, members.last()) {
            members.len() - 1
        } else {
            before
        }
    }
}

/// Whether the member named `me` delivers a subscription.
pub open spec fn is_owner(
    subscription: Seq<char>,
    me: Seq<char>,
    members: Seq<Seq<char>>,
) -> bool {
    members.len() == 0 || members[owner_index(subscription, members)] == me
}

/// FNV-1a continued over one run of bytes.
fn fnv_over(from: u64, bytes: &[u8], Ghost(before): Ghost<Seq<u8>>) -> (h: u64)
    requires
        from == fnv(before),
    ensures
        h == fnv(before + bytes@),
{
    let mut h: u64 = from;
    let mut i: usize = 0;
    assert(before + bytes@.take(0) =~= before);
    while i < bytes.len()
        invariant
            i <= bytes.len(),
            h == fnv(before + bytes@.take(i as int)),
        decreases bytes.len() - i,
    {
        proof {
            let next = before + bytes@.take(i + 1);
            assert(next.drop_last() =~= before + bytes@.take(i as int));
            assert(next.last() == bytes@[i as int]);
        }
        h = (h ^ bytes[i] as u64).wrapping_mul(0x100_0000_01b3);
        i = i + 1;
    }
    assert(bytes@.take(i as int) =~= bytes@);
    h
}

/// FNV-1a over bytes.
pub fn fnv_of(bytes: &[u8]) -> (h: u64)
    ensures
        h == fnv(bytes@),
{
    assert(Seq::<u8>::empty() + bytes@ =~= bytes@);
    fnv_over(0xcbf2_9ce4_8422_2325, bytes, Ghost(Seq::empty()))
}

/// A member's weight for a subscription: FNV-1a, so the mapping is stable
/// across processes and releases.
pub fn hash(subscription: &str, member: &str) -> (h: u64)
    ensures
        h == weight(subscription@, member@),
{
    let separator: [u8; 1] = [0];
    let ghost first = encode_utf8(subscription@);
    let ghost second = first + seq![0u8];
    proof {
        assert(Seq::<u8>::empty() + first =~= first);
        assert(separator@ =~= seq![0u8]);
    }
    let h: u64 = fnv_over(
        0xcbf2_9ce4_8422_2325,
        subscription.as_bytes(),
        Ghost(Seq::empty()),
    );
    let h: u64 = fnv_over(h, &separator, Ghost(first));
    fnv_over(h, member.as_bytes(), Ghost(second))
}

/// The texts of a member set.
pub open spec fn member_texts(members: Seq<String>) -> Seq<Seq<char>> {
    Seq::new(members.len(), |i: int| members[i]@)
}

/// The member that owns this subscription, or `None` when there are none.
pub fn owner<'a>(subscription: &str, members: &'a Vec<String>) -> (owner: Option<&'a String>)
    ensures
        owner is None <==> members@.len() == 0,
        owner matches Some(member) ==> member@ == members@[owner_index(
            subscription@,
            member_texts(members@),
        )]@,
{
    if members.len() == 0 {
        return None;
    }
    let ghost texts = member_texts(members@);
    let mut at: usize = 0;
    let mut best: u64 = hash(subscription, members[0].as_str());
    let mut i: usize = 1;
    assert(texts.take(1).len() == 1);
    while i < members.len()
        invariant
            1 <= i <= members.len(),
            at < i,
            texts == member_texts(members@),
            at == owner_index(subscription@, texts.take(i as int)),
            best == weight(subscription@, texts[at as int]),
        decreases members.len() - i,
    {
        let h: u64 = hash(subscription, members[i].as_str());
        proof {
            assert(texts.take(i + 1).drop_last() =~= texts.take(i as int));
            assert(texts.take(i + 1).last() == texts[i as int]);
        }
        if best <= h {
            at = i;
            best = h;
        }
        i = i + 1;
    }
    assert(texts.take(i as int) =~= texts);
    Some(&members[at])
}

/// Whether the node named `me` should deliver `subscription`.
///
/// With no membership the answer is yes: a single node must deliver its own
/// webhooks. A node that is not in a member set that has members owns nothing.
pub fn owns(subscription: &str, me: &str, members: &Vec<String>) -> (b: bool)
    ensures
        b == is_owner(subscription@, me@, member_texts(members@)),
{
    match owner(subscription, members) {
        Some(owner) => {
            proof {
                lemma_owner_index(subscription@, member_texts(members@));
            }
            *owner.as_str() == *me
        },
        None => true,
    }
}

proof fn lemma_owner_index(subscription: Seq<char>, members: Seq<Seq<char>>)
    requires
        members.len() > 0,
    ensures
        0 <= owner_index(subscription, members) < members.len(),
        forall|i: int|
            0 <= i < members.len() ==> weight(subscription, #[trigger] members[i]) <= weight(
                subscription,
                members[owner_index(subscription, members)],
            ),
        forall|i: int|
            owner_index(subscription, members) < i < members.len() ==> weight(
                subscription,
                #[trigger] members[i],
            ) < weight(subscription, members[owner_index(subscription, members)]),
    decreases members.len(),
{
    if members.len() > 1 {
        let before = members.drop_last();
        lemma_owner_index(subscription, before);
        let at = owner_index(subscription, members);
        let was = owner_index(subscription, before);
        assert(before[was] == members[was]);
        assert forall|i: int| 0 <= i < members.len() implies weight(
            subscription,
            #[trigger] members[i],
        ) <= weight(subscription, members[at]) by {
            if i < before.len() {
                assert(before[i] == members[i]);
            }
        }
        assert forall|i: int| at < i < members.len() implies weight(
            subscription,
            #[trigger] members[i],
        ) < weight(subscription, members[at]) by {
            if i < before.len() {
                assert(before[i] == members[i]);
            }
        }
    }
}

/// The owner is the only member that no other outweighs, the later one
/// counting as the heavier where two weigh the same.
proof fn lemma_owner_unique(subscription: Seq<char>, members: Seq<Seq<char>>, at: int)
    requires
        0 <= at < members.len(),
        forall|i: int|
            0 <= i < members.len() ==> weight(subscription, #[trigger] members[i]) <= weight(
                subscription,
                members[at],
            ),
        forall|i: int|
            at < i < members.len() ==> weight(subscription, #[trigger] members[i]) < weight(
                subscription,
                members[at],
            ),
    ensures
        owner_index(subscription, members) == at,
{
    lemma_owner_index(subscription, members);
    let found = owner_index(subscription, members);
    if found < at {
        assert(weight(subscription, members[at]) < weight(subscription, members[found]));
    } else if at < found {
        assert(weight(subscription, members[found]) < weight(subscription, members[at]));
    }
}

/// No member is named twice.
pub open spec fn distinct_members(members: Seq<Seq<char>>) -> bool {
    forall|i: int, j: int|
        0 <= i < j < members.len() ==> #[trigger] members[i] != #[trigger] members[j]
}

/// Exactly one member of a member set owns a given subscription.
pub proof fn exactly_one_member_owns(subscription: Seq<char>, members: Seq<Seq<char>>)
    requires
        members.len() > 0,
        distinct_members(members),
    ensures
        exists|i: int| 0 <= i < members.len() && is_owner(
            subscription,
            #[trigger] members[i],
            members,
        ),
        forall|i: int, j: int|
            0 <= i < members.len() && 0 <= j < members.len() && is_owner(
                subscription,
                #[trigger] members[i],
                members,
            ) && is_owner(subscription, #[trigger] members[j], members) ==> i == j,
{
    lemma_owner_index(subscription, members);
    assert(is_owner(
        subscription,
        members[owner_index(subscription, members)],
        members,
    ));
}

/// A member that leaves moves only what it owned: a subscription whose owner
/// stays keeps that owner.
pub proof fn leaving_moves_only_what_the_member_owned(
    subscription: Seq<char>,
    members: Seq<Seq<char>>,
    gone: int,
)
    requires
        0 <= gone < members.len(),
        owner_index(subscription, members) != gone,
    ensures
        ({
            let after = members.remove(gone);
            after[owner_index(subscription, after)] == members[owner_index(
                subscription,
                members,
            )]
        }),
{
    lemma_owner_index(subscription, members);
    let after = members.remove(gone);
    let was = owner_index(subscription, members);
    let now = if was < gone {
        was
    } else {
        was - 1
    };
    assert(after[now] == members[was]);
    assert forall|i: int| 0 <= i < after.len() implies weight(subscription, #[trigger] after[i])
        <= weight(subscription, after[now]) by {
        let j = if i < gone { i } else { i + 1 };
        assert(after[i] == members[j]);
    }
    assert forall|i: int| now < i < after.len() implies weight(subscription, #[trigger] after[i])
        < weight(subscription, after[now]) by {
        let j = if i < gone { i } else { i + 1 };
        assert(after[i] == members[j]);
    }
    lemma_owner_unique(subscription, after, now);
}

/// A member that joins takes subscriptions for itself alone: one that it does
/// not take keeps its owner.
pub proof fn joining_takes_only_for_the_newcomer(
    subscription: Seq<char>,
    members: Seq<Seq<char>>,
    at: int,
    newcomer: Seq<char>,
)
    requires
        members.len() > 0,
        0 <= at <= members.len(),
    ensures
        ({
            let after = members.insert(at, newcomer);
            let owner = after[owner_index(subscription, after)];
            owner == newcomer || owner == members[owner_index(subscription, members)]
        }),
{
    let after = members.insert(at, newcomer);
    lemma_owner_index(subscription, after);
    if owner_index(subscription, after) != at {
        assert(after.remove(at) =~= members);
        leaving_moves_only_what_the_member_owned(subscription, after, at);
    }
}

/// When an owner dies exactly one survivor takes over, and it is another one.
pub proof fn a_dead_owners_subscription_is_taken_over(
    subscription: Seq<char>,
    members: Seq<Seq<char>>,
)
    requires
        members.len() > 1,
        distinct_members(members),
    ensures
        ({
            let dead = owner_index(subscription, members);
            let after = members.remove(dead);
            let survivor = after[owner_index(subscription, after)];
            survivor != members[dead] && after.contains(survivor) && is_owner(
                subscription,
                survivor,
                after,
            )
        }),
{
    lemma_owner_index(subscription, members);
    let dead = owner_index(subscription, members);
    let after = members.remove(dead);
    lemma_owner_index(subscription, after);
    let at = owner_index(subscription, after);
    let was = if at < dead { at } else { at + 1 };
    assert(after[at] == members[was]);
    if was < dead {
        assert(members[was] != members[dead]);
    } else {
        assert(members[dead] != members[was]);
    }
}

} // verus!
