//! Request rate limiting.
//!
//! A token bucket per key, with physical time passed in as a parameter.
//!
//! On the login route a limit is a security control: passwords are guessable
//! at network speed, and every attempt costs a full password hash. That is why
//! [`Limiter::check_at`] is separate from [`Limiter::record_at`]: the decision
//! has to be made before the hash runs. Only failures are recorded, so a client
//! that legitimately re-authenticates often is not throttled for it.
//!
//! A bucket is held in exact fractions: one token is as many parts as the
//! window has milliseconds, and each millisecond returns as many parts as the
//! burst has tokens.

use vstd::prelude::*;
use vstd::string::*;

use crate::error::{too_many_requests as too_many, ApiError};
use crate::json::{
    distinct_keys, find_key, key_index, lemma_key_index, lemma_key_index_unique, lookup, named,
    put,
};

verus! {

/// How many attempts are allowed, and over what period they are replenished.
#[derive(Clone, Copy, Debug, PartialEq, Eq, Structural)]
pub struct RateLimit {
    /// Attempts available at once, and the bucket's capacity.
    pub burst: u32,
    /// The period over which a fully drained bucket refills completely, in
    /// milliseconds.
    pub window_ms: u64,
}

impl RateLimit {
    pub fn new(burst: u32, window_ms: u64) -> (limit: Self)
        ensures
            limit == (RateLimit { burst, window_ms }),
    {
        RateLimit { burst, window_ms }
    }

    /// A limit of zero burst is how a limiter is turned off.
    pub fn is_disabled(&self) -> (off: bool)
        ensures
            off == (self.burst == 0),
    {
        self.burst == 0
    }

    /// The parts one token is made of: the window in milliseconds, and one
    /// where it is empty.
    pub open spec fn token(self) -> nat {
        if self.window_ms == 0 {
            1
        } else {
            self.window_ms as nat
        }
    }

    /// The parts a full bucket holds.
    pub open spec fn capacity(self) -> nat {
        self.burst as nat * self.token()
    }

    fn token_parts(&self) -> (parts: u128)
        ensures
            parts == self.token(),
            1 <= parts <= u64::MAX,
    {
        if self.window_ms == 0 {
            1
        } else {
            self.window_ms as u128
        }
    }

    fn capacity_parts(&self) -> (parts: u128)
        ensures
            parts == self.capacity(),
            parts <= u32::MAX * u64::MAX,
    {
        let token: u128 = self.token_parts();
        proof {
            assert(self.burst * token <= u32::MAX * u64::MAX) by (nonlinear_arith)
                requires
                    self.burst <= u32::MAX,
                    token <= u64::MAX,
            ;
        }
        self.burst as u128 * token
    }
}

/// The answer to "may this caller proceed".
#[derive(Clone, Copy, Debug, PartialEq, Eq, Structural)]
pub enum Decision {
    Allowed,
    /// Refused, with how long until one token is available again.
    Limited { retry_after_ms: u64 },
}

impl Decision {
    pub fn is_allowed(&self) -> (allowed: bool)
        ensures
            allowed == (self is Allowed),
    {
        matches!(self, Decision::Allowed)
    }
}

/// A key's budget.
#[derive(Clone, Copy, Debug, PartialEq, Eq, Structural)]
pub struct Bucket {
    pub parts: u128,
    /// When `parts` was last correct. Refill is computed lazily from this, so
    /// an idle key costs nothing.
    pub updated_ms: u64,
}

/// What a bucket has come to by `now_ms`, its capacity aside. A clock that
/// went backwards returns nothing.
pub open spec fn level(limit: RateLimit, bucket: Bucket, now_ms: u64) -> nat {
    bucket.parts as nat + (if now_ms > bucket.updated_ms {
        (now_ms - bucket.updated_ms) as nat * limit.burst as nat
    } else {
        0
    })
}

/// The bucket brought up to `now_ms`, at most full.
pub open spec fn refilled(limit: RateLimit, bucket: Bucket, now_ms: u64) -> Bucket {
    let parts = level(limit, bucket, now_ms);
    Bucket {
        parts: (if parts < limit.capacity() {
            parts
        } else {
            limit.capacity()
        }) as u128,
        updated_ms: now_ms,
    }
}

/// The bucket with one token taken, or empty where it had less.
pub open spec fn drained(limit: RateLimit, bucket: Bucket) -> Bucket {
    Bucket {
        parts: (if bucket.parts >= limit.token() {
            bucket.parts - limit.token()
        } else {
            0
        }) as u128,
        ..bucket
    }
}

/// Milliseconds until a bucket that holds less than a token holds one, and a
/// second at least.
pub open spec fn wait_ms(limit: RateLimit, bucket: Bucket) -> nat
    recommends
        bucket.parts < limit.token(),
        limit.burst > 0,
{
    let missing = (limit.token() - bucket.parts) as nat;
    let ms = (missing + limit.burst as nat - 1) as nat / limit.burst as nat;
    if ms < 1000 {
        1000
    } else {
        ms
    }
}

/// A token bucket per key.
pub struct Limiter {
    limit: RateLimit,
    /// The key space is the callers' to choose: an address is whatever packets
    /// arrive from. Without a bound, the map is one more way to exhaust memory.
    max_keys: usize,
    buckets: Vec<(String, Bucket)>,
}

/// A tracked key and its bucket.
pub type Entry = (Seq<char>, Bucket);

/// The entries whose buckets have not refilled completely.
pub open spec fn unrecovered(limit: RateLimit, entries: Seq<Entry>, now_ms: u64) -> Seq<Entry>
    decreases entries.len(),
{
    if entries.len() == 0 {
        Seq::empty()
    } else {
        let before = unrecovered(limit, entries.drop_last(), now_ms);
        if level(limit, entries.last().1, now_ms) < limit.capacity() {
            before.push(entries.last())
        } else {
            before
        }
    }
}

/// Where the fullest bucket stands; the last of them where several are.
pub open spec fn fullest(limit: RateLimit, entries: Seq<Entry>, now_ms: u64) -> int
    decreases entries.len(),
{
    if entries.len() <= 1 {
        0
    } else {
        let before = fullest(limit, entries.drop_last(), now_ms);
        if level(limit, entries[before].1, now_ms) <= level(limit, entries.last().1, now_ms) {
            entries.len() - 1
        } else {
            before
        }
    }
}

/// The entries without their fullest buckets, until fewer than `max_keys` are
/// left.
pub open spec fn trimmed(
    limit: RateLimit,
    entries: Seq<Entry>,
    max_keys: nat,
    now_ms: u64,
) -> Seq<Entry>
    decreases entries.len(),
{
    if entries.len() < max_keys || entries.len() == 0 {
        entries
    } else {
        let at = fullest(limit, entries, now_ms);
        if 0 <= at < entries.len() {
            trimmed(limit, entries.remove(at), max_keys, now_ms)
        } else {
            entries
        }
    }
}

/// The entries after room was made for one more: all of them where there was
/// room. Otherwise the buckets that have refilled completely carry no
/// information and go first, and then the fullest, which have the least
/// evidence against them.
pub open spec fn evicted(
    limit: RateLimit,
    entries: Seq<Entry>,
    max_keys: nat,
    now_ms: u64,
) -> Seq<Entry> {
    if entries.len() < max_keys {
        entries
    } else {
        trimmed(limit, unrecovered(limit, entries, now_ms), max_keys, now_ms)
    }
}

/// The entries after one token was taken from `key`'s bucket.
pub open spec fn recorded(
    limit: RateLimit,
    entries: Seq<Entry>,
    max_keys: nat,
    now_ms: u64,
    key: Seq<char>,
) -> Seq<Entry> {
    if limit.burst == 0 {
        entries
    } else {
        match lookup(entries, key) {
            Some(bucket) => put(
                entries,
                key,
                drained(limit, refilled(limit, bucket, now_ms)),
            ),
            None => evicted(limit, entries, max_keys, now_ms).push(
                (
                    key,
                    Bucket {
                        parts: (limit.capacity() - limit.token()) as u128,
                        updated_ms: now_ms,
                    },
                ),
            ),
        }
    }
}

/// Whether `key` may proceed at `now_ms`.
pub open spec fn decision(
    limit: RateLimit,
    entries: Seq<Entry>,
    now_ms: u64,
    key: Seq<char>,
) -> Decision {
    match lookup(entries, key) {
        Some(bucket) if limit.burst > 0 => {
            let now = refilled(limit, bucket, now_ms);
            if now.parts >= limit.token() {
                Decision::Allowed
            } else {
                Decision::Limited { retry_after_ms: wait_ms(limit, now) as u64 }
            }
        },
        _ => Decision::Allowed,
    }
}

/// The entries after `key` was checked at `now_ms`: its bucket, where there is
/// one, brought up to that time.
pub open spec fn checked(
    limit: RateLimit,
    entries: Seq<Entry>,
    now_ms: u64,
    key: Seq<char>,
) -> Seq<Entry> {
    match lookup(entries, key) {
        Some(bucket) if limit.burst > 0 => put(entries, key, refilled(limit, bucket, now_ms)),
        _ => entries,
    }
}

/// Every entry of `part` is one of `whole`.
pub open spec fn drawn_from(part: Seq<Entry>, whole: Seq<Entry>) -> bool {
    forall|i: int| 0 <= i < part.len() ==> whole.contains(#[trigger] part[i])
}

/// No bucket is over its capacity.
pub open spec fn within_capacity(limit: RateLimit, entries: Seq<Entry>) -> bool {
    forall|i: int| 0 <= i < entries.len() ==> (#[trigger] entries[i]).1.parts <= limit.capacity()
}

/// What a limiter keeps: keys are distinct, no more of them than its bound, and
/// no bucket over its capacity.
pub open spec fn well_formed(limit: RateLimit, entries: Seq<Entry>, max_keys: nat) -> bool {
    &&& 1 <= max_keys
    &&& entries.len() <= max_keys
    &&& distinct_keys(entries)
    &&& within_capacity(limit, entries)
    &&& limit.burst == 0 ==> entries.len() == 0
}

impl Limiter {
    pub closed spec fn entries(self) -> Seq<Entry> {
        named(self.buckets@)
    }

    pub closed spec fn rate(self) -> RateLimit {
        self.limit
    }

    pub closed spec fn bound(self) -> nat {
        self.max_keys as nat
    }

    /// What every limiter keeps.
    pub open spec fn wf(self) -> bool {
        well_formed(self.rate(), self.entries(), self.bound())
    }

    /// A limiter that tracks at most `max_keys` keys, and one at least.
    pub fn new(limit: RateLimit, max_keys: usize) -> (limiter: Self)
        ensures
            limiter.wf(),
            limiter.rate() == limit,
            limiter.bound() == (if max_keys == 0 {
                1
            } else {
                max_keys as nat
            }),
            limiter.entries() == Seq::<Entry>::empty(),
    {
        let buckets: Vec<(String, Bucket)> = Vec::new();
        assert(named(buckets@) =~= Seq::<Entry>::empty());
        Limiter {
            limit,
            max_keys: if max_keys == 0 {
                1
            } else {
                max_keys
            },
            buckets,
        }
    }

    pub fn limit(&self) -> (limit: RateLimit)
        ensures
            limit == self.rate(),
    {
        self.limit
    }

    /// Number of keys currently tracked: never more than the bound.
    pub fn tracked_keys(&self) -> (n: usize)
        ensures
            n == self.entries().len(),
            self.wf() ==> n <= self.bound(),
    {
        self.buckets.len()
    }

    /// Would this key be allowed at `now_ms`? Consumes nothing, and tracks no
    /// key that was not tracked before.
    pub fn check_at(&mut self, now_ms: u64, key: &str) -> (answer: Decision)
        requires
            old(self).wf(),
        ensures
            final(self).wf(),
            answer == decision(old(self).rate(), old(self).entries(), now_ms, key@),
            final(self).entries() == checked(
                old(self).rate(),
                old(self).entries(),
                now_ms,
                key@,
            ),
            final(self).rate() == old(self).rate(),
            final(self).bound() == old(self).bound(),
    {
        if self.limit.is_disabled() {
            return Decision::Allowed;
        }
        let at: usize = find_key(&self.buckets, key);
        let ghost entries = named(self.buckets@);
        proof {
            lemma_key_index(entries, key@);
        }
        if at == self.buckets.len() {
            return Decision::Allowed;
        }
        let bucket = self.buckets[at].1;
        assert(entries[at as int].1 == bucket);
        let now = refill(&self.limit, bucket, now_ms);
        self.buckets[at].1 = now;
        proof {
            assert(self.entries() =~= put(entries, key@, now));
            lemma_put_wf(self.limit, entries, self.max_keys as nat, key@, now);
        }
        if now.parts >= self.limit.token_parts() {
            Decision::Allowed
        } else {
            Decision::Limited { retry_after_ms: wait_for_one_token(&self.limit, now) }
        }
    }

    /// Consume one token for this key at `now_ms`.
    pub fn record_at(&mut self, now_ms: u64, key: &str)
        requires
            old(self).wf(),
        ensures
            final(self).wf(),
            final(self).entries() == recorded(
                old(self).rate(),
                old(self).entries(),
                old(self).bound(),
                now_ms,
                key@,
            ),
            final(self).rate() == old(self).rate(),
            final(self).bound() == old(self).bound(),
    {
        if self.limit.is_disabled() {
            return;
        }
        let at: usize = find_key(&self.buckets, key);
        let ghost entries = named(self.buckets@);
        let token: u128 = self.limit.token_parts();
        proof {
            lemma_key_index(entries, key@);
        }
        if at < self.buckets.len() {
            let bucket = self.buckets[at].1;
            assert(entries[at as int].1 == bucket);
            let mut now = refill(&self.limit, bucket, now_ms);
            // Floored at zero: a long burst must not extend the penalty past
            // the window.
            if now.parts >= token {
                now.parts = now.parts - token;
            } else {
                now.parts = 0;
            }
            self.buckets[at].1 = now;
            proof {
                assert(self.entries() =~= put(entries, key@, now));
                lemma_put_wf(self.limit, entries, self.max_keys as nat, key@, now);
            }
            return;
        }
        self.evict_if_full(now_ms);
        proof {
            lemma_evicted(self.limit, entries, self.max_keys as nat, now_ms);
        }
        proof {
            let kept = self.entries();
            assert forall|i: int| 0 <= i < kept.len() implies #[trigger] kept[i].0 != key@
                && kept[i].1.parts <= self.limit.capacity() by {
                assert(entries.contains(kept[i]));
            }
        }
        self.track(key, now_ms);
    }

    /// Track a key that was not tracked before, with one token taken.
    fn track(&mut self, key: &str, now_ms: u64)
        requires
            old(self).rate().burst > 0,
            old(self).entries().len() < old(self).bound(),
            distinct_keys(old(self).entries()),
            within_capacity(old(self).rate(), old(self).entries()),
            forall|i: int|
                0 <= i < old(self).entries().len() ==> (#[trigger] old(self).entries()[i]).0
                    != key@,
        ensures
            final(self).wf(),
            final(self).rate() == old(self).rate(),
            final(self).bound() == old(self).bound(),
            final(self).entries() == old(self).entries().push(
                (
                    key@,
                    Bucket {
                        parts: (old(self).rate().capacity() - old(self).rate().token()) as u128,
                        updated_ms: now_ms,
                    },
                ),
            ),
    {
        let ghost kept = self.entries();
        proof {
            lemma_capacity(self.limit);
        }
        let bucket = Bucket {
            parts: self.limit.capacity_parts() - self.limit.token_parts(),
            updated_ms: now_ms,
        };
        self.buckets.push((key.to_owned(), bucket));
        assert(self.entries() =~= kept.push((key@, bucket)));
    }

    /// Make room for one more key, where the map is at its bound.
    fn evict_if_full(&mut self, now_ms: u64)
        requires
            old(self).wf(),
            old(self).rate().burst > 0,
        ensures
            final(self).entries() == evicted(
                old(self).rate(),
                old(self).entries(),
                old(self).bound(),
                now_ms,
            ),
            final(self).rate() == old(self).rate(),
            final(self).bound() == old(self).bound(),
    {
        if self.buckets.len() < self.max_keys {
            return;
        }
        self.drop_recovered(now_ms);
        while self.buckets.len() >= self.max_keys
            invariant
                self.limit == old(self).rate(),
                self.max_keys as nat == old(self).bound(),
                self.max_keys >= 1,
                within_capacity(self.limit, self.entries()),
                trimmed(self.limit, self.entries(), self.max_keys as nat, now_ms) == evicted(
                    old(self).rate(),
                    old(self).entries(),
                    old(self).bound(),
                    now_ms,
                ),
            decreases self.buckets.len(),
        {
            let ghost entries = self.entries();
            let at: usize = self.find_fullest(now_ms);
            self.buckets.remove(at);
            proof {
                assert(self.entries() =~= entries.remove(at as int));
                assert forall|i: int| 0 <= i < self.entries().len() implies (
                #[trigger] self.entries()[i]).1.parts <= self.limit.capacity() by {
                    let j = if i < at { i } else { i + 1 };
                    assert(self.entries()[i] == entries[j]);
                }
            }
        }
    }

    /// Drop the buckets that have refilled completely.
    fn drop_recovered(&mut self, now_ms: u64)
        requires
            within_capacity(old(self).rate(), old(self).entries()),
        ensures
            within_capacity(final(self).rate(), final(self).entries()),
            final(self).entries() == unrecovered(old(self).rate(), old(self).entries(), now_ms),
            final(self).rate() == old(self).rate(),
            final(self).bound() == old(self).bound(),
    {
        let capacity: u128 = self.limit.capacity_parts();
        let ghost all = self.entries();
        let ghost mut seen: int = 0;
        let mut i: usize = 0;
        assert(all.take(0) =~= Seq::<Entry>::empty());
        assert(self.entries().take(0) =~= Seq::<Entry>::empty());
        assert(self.entries().skip(0) =~= all.skip(0));
        while i < self.buckets.len()
            invariant
                i <= self.buckets.len(),
                0 <= seen <= all.len(),
                self.limit == old(self).rate(),
                self.max_keys as nat == old(self).bound(),
                all == old(self).entries(),
                capacity == self.limit.capacity(),
                within_capacity(self.limit, self.entries()),
                self.entries().take(i as int) == unrecovered(self.limit, all.take(seen), now_ms),
                self.entries().skip(i as int) == all.skip(seen),
            decreases self.buckets.len() - i,
        {
            let ghost now = self.entries();
            let bucket = self.buckets[i].1;
            assert(now[i as int].1 == bucket);
            let parts: u128 = level_parts(&self.limit, bucket, now_ms);
            proof {
                assert(now.skip(i as int)[0] == now[i as int]);
                assert(all.skip(seen).len() > 0);
                assert(all[seen] == all.skip(seen)[0]);
                assert(all[seen].1 == bucket);
                assert(all.take(seen + 1).drop_last() =~= all.take(seen));
                assert(all.take(seen + 1).last() == all[seen]);
                assert(all.skip(seen + 1) =~= all.skip(seen).skip(1));
                seen = seen + 1;
            }
            if parts < capacity {
                i = i + 1;
                proof {
                    assert(now.take(i as int) =~= now.take(i - 1).push(now[i - 1]));
                    assert(now.skip(i as int) =~= now.skip(i - 1).skip(1));
                }
            } else {
                self.buckets.remove(i);
                proof {
                    assert(self.entries() =~= now.remove(i as int));
                    assert(self.entries().take(i as int) =~= now.take(i as int));
                    assert(self.entries().skip(i as int) =~= now.skip(i as int).skip(1));
                }
            }
        }
        proof {
            assert(all.skip(seen).len() == 0);
            assert(all.take(seen) =~= all);
            assert(self.entries().take(i as int) =~= self.entries());
        }
    }

    /// Where the fullest bucket stands.
    fn find_fullest(&self, now_ms: u64) -> (at: usize)
        requires
            self.entries().len() > 0,
            within_capacity(self.rate(), self.entries()),
        ensures
            at == fullest(self.rate(), self.entries(), now_ms),
            at < self.entries().len(),
    {
        let ghost entries = self.entries();
        let mut at: usize = 0;
        assert(entries[0].1 == self.buckets@[0].1);
        let mut most: u128 = level_parts(&self.limit, self.buckets[0].1, now_ms);
        let mut i: usize = 1;
        while i < self.buckets.len()
            invariant
                1 <= i <= self.buckets.len(),
                at < i,
                entries == self.entries(),
                within_capacity(self.limit, entries),
                at == fullest(self.limit, entries.take(i as int), now_ms),
                most == level(self.limit, entries[at as int].1, now_ms),
            decreases self.buckets.len() - i,
        {
            assert(entries[i as int].1 == self.buckets@[i as int].1);
            let parts: u128 = level_parts(&self.limit, self.buckets[i].1, now_ms);
            proof {
                assert(entries.take(i + 1).drop_last() =~= entries.take(i as int));
                assert(entries.take(i + 1).last() == entries[i as int]);
            }
            if most <= parts {
                at = i;
                most = parts;
            }
            i = i + 1;
        }
        assert(entries.take(i as int) =~= entries);
        at
    }
}

/// What a bucket has come to by `now_ms`, its capacity aside.
fn level_parts(limit: &RateLimit, bucket: Bucket, now_ms: u64) -> (parts: u128)
    requires
        bucket.parts <= limit.capacity(),
    ensures
        parts == level(*limit, bucket, now_ms),
{
    let elapsed: u128 = if now_ms > bucket.updated_ms {
        (now_ms - bucket.updated_ms) as u128
    } else {
        0
    };
    proof {
        lemma_capacity(*limit);
        assert(elapsed * limit.burst <= u64::MAX * u32::MAX) by (nonlinear_arith)
            requires
                elapsed <= u64::MAX,
                limit.burst <= u32::MAX,
        ;
    }
    bucket.parts + elapsed * limit.burst as u128
}

/// The bucket brought up to `now_ms`, at most full.
fn refill(limit: &RateLimit, bucket: Bucket, now_ms: u64) -> (now: Bucket)
    requires
        bucket.parts <= limit.capacity(),
    ensures
        now == refilled(*limit, bucket, now_ms),
        now.parts <= limit.capacity(),
{
    let parts: u128 = level_parts(limit, bucket, now_ms);
    let capacity: u128 = limit.capacity_parts();
    Bucket {
        parts: if parts < capacity {
            parts
        } else {
            capacity
        },
        updated_ms: now_ms,
    }
}

/// Milliseconds until the bucket holds a token, and a second at least.
fn wait_for_one_token(limit: &RateLimit, bucket: Bucket) -> (ms: u64)
    requires
        limit.burst > 0,
        bucket.parts < limit.token(),
    ensures
        ms == wait_ms(*limit, bucket),
        ms >= 1000,
{
    let missing: u128 = limit.token_parts() - bucket.parts;
    let burst: u128 = limit.burst as u128;
    let ms: u128 = (missing + burst - 1) / burst;
    proof {
        assert((missing + burst - 1) / burst as int <= missing) by (nonlinear_arith)
            requires
                missing >= 1,
                burst >= 1,
        ;
    }
    // A `Retry-After` of zero would tell a client to retry immediately against
    // a limit it has just hit.
    if ms < 1000 {
        1000
    } else {
        ms as u64
    }
}

pub proof fn lemma_capacity(limit: RateLimit)
    ensures
        limit.capacity() <= u32::MAX * u64::MAX,
        limit.burst > 0 ==> limit.token() <= limit.capacity(),
{
    let token = limit.token();
    let burst = limit.burst as nat;
    assert(burst * token <= u32::MAX * u64::MAX) by (nonlinear_arith)
        requires
            burst <= u32::MAX,
            token <= u64::MAX,
    ;
    if burst > 0 {
        assert(token <= burst * token) by (nonlinear_arith)
            requires
                burst >= 1,
        ;
    }
}

proof fn lemma_put_wf(
    limit: RateLimit,
    entries: Seq<Entry>,
    max_keys: nat,
    key: Seq<char>,
    bucket: Bucket,
)
    requires
        well_formed(limit, entries, max_keys),
        key_index(entries, key) < entries.len(),
        bucket.parts <= limit.capacity(),
    ensures
        well_formed(limit, put(entries, key, bucket), max_keys),
{
    lemma_key_index(entries, key);
}

/// Room was made: what is left was there before, in order, and fewer keys than
/// the bound.
pub proof fn lemma_evicted(limit: RateLimit, entries: Seq<Entry>, max_keys: nat, now_ms: u64)
    requires
        well_formed(limit, entries, max_keys),
    ensures
        evicted(limit, entries, max_keys, now_ms).len() < max_keys,
        distinct_keys(evicted(limit, entries, max_keys, now_ms)),
        drawn_from(evicted(limit, entries, max_keys, now_ms), entries),
{
    if entries.len() >= max_keys {
        let rest = unrecovered(limit, entries, now_ms);
        lemma_unrecovered(limit, entries, now_ms);
        lemma_trimmed(limit, rest, max_keys, now_ms);
        let kept = evicted(limit, entries, max_keys, now_ms);
        assert forall|i: int| 0 <= i < kept.len() implies entries.contains(#[trigger] kept[i]) by {
            assert(rest.contains(kept[i]));
            let j = choose|j: int| 0 <= j < rest.len() && rest[j] == kept[i];
            assert(entries.contains(rest[j]));
        }
    } else {
        assert forall|i: int| 0 <= i < entries.len() implies entries.contains(
            #[trigger] entries[i],
        ) by {}
    }
}

proof fn lemma_unrecovered(limit: RateLimit, entries: Seq<Entry>, now_ms: u64)
    requires
        distinct_keys(entries),
    ensures
        distinct_keys(unrecovered(limit, entries, now_ms)),
        drawn_from(unrecovered(limit, entries, now_ms), entries),
    decreases entries.len(),
{
    if entries.len() > 0 {
        let before = entries.drop_last();
        assert(distinct_keys(before)) by {
            assert forall|i: int, j: int| 0 <= i < j < before.len() implies #[trigger] before[i].0
                != #[trigger] before[j].0 by {
                assert(entries[i].0 != entries[j].0);
            }
        }
        lemma_unrecovered(limit, before, now_ms);
        let rest = unrecovered(limit, before, now_ms);
        let all = unrecovered(limit, entries, now_ms);
        assert forall|i: int| 0 <= i < all.len() implies entries.contains(#[trigger] all[i]) by {
            if i < rest.len() {
                assert(before.contains(rest[i]));
                let j = choose|j: int| 0 <= j < before.len() && before[j] == rest[i];
                assert(entries[j] == all[i]);
            } else {
                assert(entries[entries.len() - 1] == all[i]);
            }
        }
        assert forall|i: int, j: int| 0 <= i < j < all.len() implies #[trigger] all[i].0
            != #[trigger] all[j].0 by {
            assert(all[i] == rest[i]);
            if j < rest.len() {
                assert(rest[i].0 != rest[j].0);
            } else {
                assert(before.contains(rest[i]));
                let k = choose|k: int| 0 <= k < before.len() && before[k] == rest[i];
                assert(entries[k].0 != entries[entries.len() - 1].0);
            }
        }
    }
}

proof fn lemma_fullest(limit: RateLimit, entries: Seq<Entry>, now_ms: u64)
    requires
        entries.len() > 0,
    ensures
        0 <= fullest(limit, entries, now_ms) < entries.len(),
        forall|i: int|
            0 <= i < entries.len() ==> level(limit, (#[trigger] entries[i]).1, now_ms) <= level(
                limit,
                entries[fullest(limit, entries, now_ms)].1,
                now_ms,
            ),
    decreases entries.len(),
{
    if entries.len() > 1 {
        let before = entries.drop_last();
        lemma_fullest(limit, before, now_ms);
        let at = fullest(limit, before, now_ms);
        assert forall|i: int| 0 <= i < entries.len() implies level(
            limit,
            (#[trigger] entries[i]).1,
            now_ms,
        ) <= level(limit, entries[fullest(limit, entries, now_ms)].1, now_ms) by {
            if i < before.len() {
                assert(before[i] == entries[i]);
                assert(before[at] == entries[at]);
            }
        }
    }
}

proof fn lemma_trimmed(limit: RateLimit, entries: Seq<Entry>, max_keys: nat, now_ms: u64)
    requires
        distinct_keys(entries),
        max_keys >= 1,
    ensures
        trimmed(limit, entries, max_keys, now_ms).len() < max_keys,
        distinct_keys(trimmed(limit, entries, max_keys, now_ms)),
        drawn_from(trimmed(limit, entries, max_keys, now_ms), entries),
    decreases entries.len(),
{
    if entries.len() >= max_keys {
        lemma_fullest(limit, entries, now_ms);
        let at = fullest(limit, entries, now_ms);
        let rest = entries.remove(at);
        assert forall|i: int, j: int| 0 <= i < j < rest.len() implies #[trigger] rest[i].0
            != #[trigger] rest[j].0 by {
            let a = if i < at { i } else { i + 1 };
            let b = if j < at { j } else { j + 1 };
            assert(entries[a].0 != entries[b].0);
        }
        lemma_trimmed(limit, rest, max_keys, now_ms);
        let kept = trimmed(limit, entries, max_keys, now_ms);
        assert forall|i: int| 0 <= i < kept.len() implies entries.contains(#[trigger] kept[i]) by {
            assert(rest.contains(kept[i]));
            let j = choose|j: int| 0 <= j < rest.len() && rest[j] == kept[i];
            let a = if j < at { j } else { j + 1 };
            assert(entries[a] == kept[i]);
        }
    } else {
        assert forall|i: int| 0 <= i < entries.len() implies entries.contains(
            #[trigger] entries[i],
        ) by {}
    }
}

/// The limiters the server holds.
pub struct RateLimits {
    /// Failed logins per client address.
    pub login_ip: Limiter,
    /// Failed logins per attempted username, across all addresses. Off by
    /// default: enabling it lets anyone who can reach the endpoint exhaust a
    /// named user's budget.
    pub login_user: Limiter,
    /// Header naming the real client when the server sits behind a proxy. None
    /// means the socket peer address is used.
    pub trusted_proxy_header: Option<String>,
}

impl RateLimits {
    /// Every limiter disabled.
    pub fn disabled() -> (limits: Self)
        ensures
            limits.login_ip.wf() && limits.login_ip.rate() == (RateLimit {
                burst: 0,
                window_ms: 1000,
            }),
            limits.login_ip.bound() == 1 && limits.login_ip.entries().len() == 0,
            limits.login_user.wf() && limits.login_user.rate() == (RateLimit {
                burst: 0,
                window_ms: 1000,
            }),
            limits.login_user.bound() == 1 && limits.login_user.entries().len() == 0,
            limits.trusted_proxy_header is None,
    {
        RateLimits {
            login_ip: Limiter::new(RateLimit::new(0, 1000), 1),
            login_user: Limiter::new(RateLimit::new(0, 1000), 1),
            trusted_proxy_header: None,
        }
    }
}

/// Refuse a request that is over its limit.
pub fn too_many_requests(retry_after_ms: u64) -> (e: ApiError)
    ensures
        e@ == too_many(
            if retry_after_ms < 1000 {
                1
            } else {
                (retry_after_ms / 1000) as u64
            },
        ),
{
    let secs: u64 = retry_after_ms / 1000;
    ApiError::too_many_requests(
        if secs == 0 {
            1
        } else {
            secs
        },
    )
}

/// The entries after `n` tokens were taken from `key`'s bucket at one instant.
pub open spec fn recorded_times(
    limit: RateLimit,
    entries: Seq<Entry>,
    max_keys: nat,
    now_ms: u64,
    key: Seq<char>,
    n: nat,
) -> Seq<Entry>
    decreases n,
{
    if n == 0 {
        entries
    } else {
        recorded(
            limit,
            recorded_times(limit, entries, max_keys, now_ms, key, (n - 1) as nat),
            max_keys,
            now_ms,
            key,
        )
    }
}

/// Recording keeps what every limiter keeps: among the rest, that no more keys
/// are tracked than the bound.
pub proof fn recording_keeps_the_limiter_well_formed(
    limit: RateLimit,
    entries: Seq<Entry>,
    max_keys: nat,
    now_ms: u64,
    key: Seq<char>,
)
    requires
        well_formed(limit, entries, max_keys),
    ensures
        well_formed(limit, recorded(limit, entries, max_keys, now_ms, key), max_keys),
{
    lemma_capacity(limit);
    lemma_key_index(entries, key);
    if limit.burst > 0 {
        match lookup(entries, key) {
            Some(bucket) => {
                lemma_put_wf(
                    limit,
                    entries,
                    max_keys,
                    key,
                    drained(limit, refilled(limit, bucket, now_ms)),
                );
            },
            None => {
                lemma_evicted(limit, entries, max_keys, now_ms);
                let kept = evicted(limit, entries, max_keys, now_ms);
                assert forall|i: int| 0 <= i < kept.len() implies #[trigger] kept[i].0 != key
                    && kept[i].1.parts <= limit.capacity() by {
                    assert(entries.contains(kept[i]));
                }
            },
        }
    }
}

/// What a key's bucket holds once one token was taken from it.
proof fn lemma_recorded_lookup(
    limit: RateLimit,
    entries: Seq<Entry>,
    max_keys: nat,
    now_ms: u64,
    key: Seq<char>,
)
    requires
        well_formed(limit, entries, max_keys),
        limit.burst > 0,
    ensures
        lookup(recorded(limit, entries, max_keys, now_ms, key), key) == Some(
            match lookup(entries, key) {
                Some(bucket) => drained(limit, refilled(limit, bucket, now_ms)),
                None => Bucket {
                    parts: (limit.capacity() - limit.token()) as u128,
                    updated_ms: now_ms,
                },
            },
        ),
{
    lemma_key_index(entries, key);
    let after = recorded(limit, entries, max_keys, now_ms, key);
    if key_index(entries, key) < entries.len() {
        let at = key_index(entries, key);
        assert forall|i: int| 0 <= i < at implies #[trigger] after[i].0 != key by {
            assert(entries[i].0 != key);
        }
        lemma_key_index_unique(after, key, at);
    } else {
        lemma_evicted(limit, entries, max_keys, now_ms);
        let kept = evicted(limit, entries, max_keys, now_ms);
        assert forall|i: int| 0 <= i < kept.len() implies #[trigger] after[i].0 != key by {
            assert(entries.contains(kept[i]));
        }
        lemma_key_index_unique(after, key, kept.len() as int);
    }
}

/// A key that was not tracked has its whole burst: at one instant it is allowed
/// until `burst` attempts were recorded against it, and refused from then on.
pub proof fn the_burst_is_spent_before_the_limit_applies(
    limit: RateLimit,
    entries: Seq<Entry>,
    max_keys: nat,
    now_ms: u64,
    key: Seq<char>,
    n: nat,
)
    requires
        well_formed(limit, entries, max_keys),
        limit.burst > 0,
        lookup(entries, key) is None,
    ensures
        n < limit.burst <==> decision(
            limit,
            recorded_times(limit, entries, max_keys, now_ms, key, n),
            now_ms,
            key,
        ) is Allowed,
{
    let after = recorded_times(limit, entries, max_keys, now_ms, key, n);
    if n > 0 {
        lemma_recorded_times(limit, entries, max_keys, now_ms, key, n);
        let left = if n < limit.burst {
            (limit.burst - n) as nat
        } else {
            0
        };
        let token = limit.token();
        lemma_capacity(limit);
        assert(left * token <= limit.burst as nat * token) by (nonlinear_arith)
            requires
                left <= limit.burst,
        ;
        if left >= 1 {
            assert(left * token >= token) by (nonlinear_arith)
                requires
                    left >= 1,
            ;
        }
        let bucket = lookup(after, key)->0;
        assert(refilled(limit, bucket, now_ms).parts == left * token);
        assert(left * token >= token <==> n < limit.burst) by (nonlinear_arith)
            requires
                left == 0 || left >= 1,
                left == 0 <==> n >= limit.burst,
                token >= 1,
        ;
    }
}

proof fn lemma_recorded_times(
    limit: RateLimit,
    entries: Seq<Entry>,
    max_keys: nat,
    now_ms: u64,
    key: Seq<char>,
    n: nat,
)
    requires
        well_formed(limit, entries, max_keys),
        limit.burst > 0,
        lookup(entries, key) is None,
        n > 0,
    ensures
        well_formed(
            limit,
            recorded_times(limit, entries, max_keys, now_ms, key, n),
            max_keys,
        ),
        lookup(recorded_times(limit, entries, max_keys, now_ms, key, n), key) == Some(
            Bucket {
                parts: (if n < limit.burst {
                    ((limit.burst - n) as nat) * limit.token()
                } else {
                    0
                }) as u128,
                updated_ms: now_ms,
            },
        ),
    decreases n,
{
    let token = limit.token();
    let burst = limit.burst as nat;
    lemma_capacity(limit);
    if n == 1 {
        assert(recorded_times(limit, entries, max_keys, now_ms, key, 0) == entries);
        lemma_recorded_lookup(limit, entries, max_keys, now_ms, key);
        recording_keeps_the_limiter_well_formed(limit, entries, max_keys, now_ms, key);
        assert(burst * token - token == ((burst - 1) as nat) * token) by (nonlinear_arith)
            requires
                burst >= 1,
        ;
        if burst == 1 {
            assert(((burst - 1) as nat) * token == 0) by (nonlinear_arith)
                requires
                    burst == 1,
            ;
        }
    } else {
        let m = (n - 1) as nat;
        lemma_recorded_times(limit, entries, max_keys, now_ms, key, m);
        let before = recorded_times(limit, entries, max_keys, now_ms, key, m);
        lemma_recorded_lookup(limit, before, max_keys, now_ms, key);
        recording_keeps_the_limiter_well_formed(limit, before, max_keys, now_ms, key);
        let left = if m < burst {
            (burst - m) as nat
        } else {
            0
        };
        assert(left * token <= burst * token) by (nonlinear_arith)
            requires
                left <= burst,
        ;
        if left >= 1 {
            assert(left * token - token == ((left - 1) as nat) * token) by (nonlinear_arith)
                requires
                    left >= 1,
            ;
            assert(left * token >= token) by (nonlinear_arith)
                requires
                    left >= 1,
            ;
            if left == 1 {
                assert(((left - 1) as nat) * token == 0) by (nonlinear_arith)
                    requires
                        left == 1,
                ;
            }
        } else {
            assert(left * token == 0) by (nonlinear_arith)
                requires
                    left == 0,
            ;
        }
    }
}

/// Keys do not share a budget: recording against one key leaves every other
/// key's bucket as it was, or forgets it, and so never turns an answer of
/// allowed into a refusal.
pub proof fn keys_do_not_share_a_budget(
    limit: RateLimit,
    entries: Seq<Entry>,
    max_keys: nat,
    now_ms: u64,
    key: Seq<char>,
    other: Seq<char>,
    later_ms: u64,
)
    requires
        well_formed(limit, entries, max_keys),
        key != other,
    ensures
        ({
            let after = recorded(limit, entries, max_keys, now_ms, key);
            &&& lookup(after, other) == lookup(entries, other) || lookup(after, other) is None
            &&& entries.len() < max_keys ==> lookup(after, other) == lookup(entries, other)
            &&& decision(limit, entries, later_ms, other) is Allowed ==> decision(
                limit,
                after,
                later_ms,
                other,
            ) is Allowed
        }),
{
    let after = recorded(limit, entries, max_keys, now_ms, key);
    lemma_key_index(entries, key);
    lemma_key_index(entries, other);
    lemma_key_index(after, other);
    if limit.burst > 0 {
        let at = key_index(entries, other);
        if key_index(entries, key) < entries.len() {
            assert forall|i: int| 0 <= i < at implies #[trigger] after[i].0 != other by {
                assert(entries[i].0 != other);
            }
            lemma_key_index_unique(after, other, at);
        } else {
            lemma_evicted(limit, entries, max_keys, now_ms);
            let kept = evicted(limit, entries, max_keys, now_ms);
            let found = key_index(after, other);
            if found < after.len() {
                assert(after[found].0 == other);
                assert(entries.contains(kept[found]));
                let j = choose|j: int| 0 <= j < entries.len() && entries[j] == kept[found];
                if at < entries.len() {
                    if at < j {
                        assert(entries[at].0 != entries[j].0);
                    } else if j < at {
                        assert(entries[j].0 != other);
                    }
                } else {
                    assert(entries[j].0 != other);
                }
            }
            if entries.len() < max_keys && at < entries.len() {
                assert(after[at] == entries[at]);
                assert forall|i: int| 0 <= i < at implies #[trigger] after[i].0 != other by {
                    assert(entries[i].0 != other);
                }
                lemma_key_index_unique(after, other, at);
            }
        }
    }
}

/// A clock that went backwards grants nothing: the bucket holds what it held.
pub proof fn a_backwards_clock_grants_nothing(limit: RateLimit, bucket: Bucket, now_ms: u64)
    requires
        bucket.parts <= limit.capacity(),
        now_ms <= bucket.updated_ms,
    ensures
        refilled(limit, bucket, now_ms).parts == bucket.parts,
{
    lemma_capacity(limit);
}

/// However long a key is idle, its bucket never holds more than its burst.
pub proof fn refill_never_exceeds_the_burst(limit: RateLimit, bucket: Bucket, now_ms: u64)
    ensures
        refilled(limit, bucket, now_ms).parts <= limit.capacity(),
{
    lemma_capacity(limit);
}

/// Checking a key, at whatever time, changes no answer that any key is given at
/// that time.
pub proof fn checking_changes_no_answer(
    limit: RateLimit,
    entries: Seq<Entry>,
    max_keys: nat,
    now_ms: u64,
    key: Seq<char>,
    other: Seq<char>,
)
    requires
        well_formed(limit, entries, max_keys),
    ensures
        decision(limit, checked(limit, entries, now_ms, key), now_ms, other) == decision(
            limit,
            entries,
            now_ms,
            other,
        ),
        checked(limit, entries, now_ms, key).len() == entries.len(),
{
    let after = checked(limit, entries, now_ms, key);
    lemma_capacity(limit);
    lemma_key_index(entries, key);
    lemma_key_index(entries, other);
    let at = key_index(entries, other);
    assert forall|i: int| 0 <= i < at implies #[trigger] after[i].0 != other by {
        assert(entries[i].0 != other);
    }
    lemma_key_index_unique(after, other, at);
}

/// A refused key that comes back when it was told to is allowed.
pub proof fn coming_back_after_retry_after_is_allowed(
    limit: RateLimit,
    entries: Seq<Entry>,
    max_keys: nat,
    now_ms: u64,
    key: Seq<char>,
)
    requires
        well_formed(limit, entries, max_keys),
    ensures
        decision(limit, entries, now_ms, key) matches Decision::Limited { retry_after_ms } ==> {
            &&& retry_after_ms >= 1000
            &&& now_ms + retry_after_ms <= u64::MAX ==> decision(
                limit,
                checked(limit, entries, now_ms, key),
                (now_ms + retry_after_ms) as u64,
                key,
            ) is Allowed
        },
{
    lemma_capacity(limit);
    lemma_key_index(entries, key);
    if let Decision::Limited { retry_after_ms } = decision(limit, entries, now_ms, key) {
        let bucket = lookup(entries, key)->0;
        let now = refilled(limit, bucket, now_ms);
        let after = checked(limit, entries, now_ms, key);
        let at = key_index(entries, key);
        assert forall|i: int| 0 <= i < at implies #[trigger] after[i].0 != key by {
            assert(entries[i].0 != key);
        }
        lemma_key_index_unique(after, key, at);
        assert(lookup(after, key) == Some(now));
        let burst = limit.burst as nat;
        let missing = (limit.token() - now.parts) as nat;
        let ms = (missing + burst - 1) as nat / burst;
        assert(ms <= missing) by (nonlinear_arith)
            requires
                missing >= 1,
                burst >= 1,
                ms == (missing + burst - 1) as nat / burst,
        ;
        assert(retry_after_ms == wait_ms(limit, now));
        assert(ms * burst >= missing) by (nonlinear_arith)
            requires
                missing >= 1,
                burst >= 1,
                ms == (missing + burst - 1) as nat / burst,
        ;
        assert(retry_after_ms as nat * burst >= missing) by (nonlinear_arith)
            requires
                retry_after_ms as nat >= ms,
                ms * burst >= missing,
        ;
    }
}

/// Room is made at the expense of the least evidence: a bucket that had to go
/// had either refilled completely, or holds at least as much as any that stays.
pub proof fn eviction_keeps_the_emptiest(
    limit: RateLimit,
    entries: Seq<Entry>,
    max_keys: nat,
    now_ms: u64,
    gone: Entry,
    kept: Entry,
)
    requires
        well_formed(limit, entries, max_keys),
        entries.contains(gone),
        !evicted(limit, entries, max_keys, now_ms).contains(gone),
        evicted(limit, entries, max_keys, now_ms).contains(kept),
    ensures
        level(limit, gone.1, now_ms) >= limit.capacity() || level(limit, gone.1, now_ms) >= level(
            limit,
            kept.1,
            now_ms,
        ),
{
    if entries.len() >= max_keys && level(limit, gone.1, now_ms) < limit.capacity() {
        let rest = unrecovered(limit, entries, now_ms);
        lemma_unrecovered_contains(limit, entries, now_ms, gone);
        lemma_trimmed_keeps_the_emptiest(limit, rest, max_keys, now_ms, gone, kept);
    }
}

proof fn lemma_unrecovered_contains(
    limit: RateLimit,
    entries: Seq<Entry>,
    now_ms: u64,
    entry: Entry,
)
    requires
        entries.contains(entry),
        level(limit, entry.1, now_ms) < limit.capacity(),
    ensures
        unrecovered(limit, entries, now_ms).contains(entry),
    decreases entries.len(),
{
    let i = choose|i: int| 0 <= i < entries.len() && entries[i] == entry;
    let all = unrecovered(limit, entries, now_ms);
    let before = entries.drop_last();
    if i < entries.len() - 1 {
        assert(before[i] == entry);
        lemma_unrecovered_contains(limit, before, now_ms, entry);
        let rest = unrecovered(limit, before, now_ms);
        let j = choose|j: int| 0 <= j < rest.len() && rest[j] == entry;
        assert(all[j] == entry);
    } else {
        assert(all[all.len() - 1] == entry);
    }
}

proof fn lemma_trimmed_keeps_the_emptiest(
    limit: RateLimit,
    entries: Seq<Entry>,
    max_keys: nat,
    now_ms: u64,
    gone: Entry,
    kept: Entry,
)
    requires
        entries.contains(gone),
        !trimmed(limit, entries, max_keys, now_ms).contains(gone),
        trimmed(limit, entries, max_keys, now_ms).contains(kept),
    ensures
        level(limit, gone.1, now_ms) >= level(limit, kept.1, now_ms),
    decreases entries.len(),
{
    if entries.len() >= max_keys && entries.len() > 0 {
        lemma_fullest(limit, entries, now_ms);
        let at = fullest(limit, entries, now_ms);
        let rest = entries.remove(at);
        lemma_trimmed_drawn(limit, rest, max_keys, now_ms);
        if rest.contains(gone) {
            lemma_trimmed_keeps_the_emptiest(limit, rest, max_keys, now_ms, gone, kept);
        } else {
            let i = choose|i: int| 0 <= i < entries.len() && entries[i] == gone;
            if i != at {
                assert(rest[if i < at { i } else { i - 1 }] == gone);
            }
            let left = trimmed(limit, rest, max_keys, now_ms);
            let k = choose|k: int| 0 <= k < left.len() && left[k] == kept;
            assert(rest.contains(left[k]));
            let j = choose|j: int| 0 <= j < rest.len() && rest[j] == kept;
            assert(entries[if j < at { j } else { j + 1 }] == kept);
        }
    }
}

proof fn lemma_trimmed_drawn(
    limit: RateLimit,
    entries: Seq<Entry>,
    max_keys: nat,
    now_ms: u64,
)
    ensures
        drawn_from(trimmed(limit, entries, max_keys, now_ms), entries),
    decreases entries.len(),
{
    let kept = trimmed(limit, entries, max_keys, now_ms);
    if entries.len() >= max_keys && entries.len() > 0 {
        lemma_fullest(limit, entries, now_ms);
        let at = fullest(limit, entries, now_ms);
        let rest = entries.remove(at);
        lemma_trimmed_drawn(limit, rest, max_keys, now_ms);
        assert forall|i: int| 0 <= i < kept.len() implies entries.contains(#[trigger] kept[i]) by {
            assert(rest.contains(kept[i]));
            let j = choose|j: int| 0 <= j < rest.len() && rest[j] == kept[i];
            assert(entries[if j < at { j } else { j + 1 }] == kept[i]);
        }
    } else {
        assert forall|i: int| 0 <= i < kept.len() implies entries.contains(#[trigger] kept[i]) by {
            assert(entries[i] == kept[i]);
        }
    }
}

/// What is done to a limiter at one instant.
pub enum LimiterCall {
    Record { key: Seq<char> },
    Check { key: Seq<char> },
}

/// The entries of a new limiter after these calls, all made at `now_ms`.
pub open spec fn after_calls(
    limit: RateLimit,
    max_keys: nat,
    now_ms: u64,
    calls: Seq<LimiterCall>,
) -> Seq<Entry>
    decreases calls.len(),
{
    if calls.len() == 0 {
        Seq::empty()
    } else {
        let before = after_calls(limit, max_keys, now_ms, calls.drop_last());
        match calls.last() {
            LimiterCall::Record { key } => recorded(limit, before, max_keys, now_ms, key),
            LimiterCall::Check { key } => checked(limit, before, now_ms, key),
        }
    }
}

/// How often a key was recorded.
pub open spec fn times_recorded(calls: Seq<LimiterCall>, key: Seq<char>) -> nat
    decreases calls.len(),
{
    if calls.len() == 0 {
        0
    } else {
        times_recorded(calls.drop_last(), key) + (if calls.last() == (LimiterCall::Record { key }) {
            1nat
        } else {
            0
        })
    }
}

/// The keys that were recorded, each once, in the order of their first records.
pub open spec fn keys_recorded(calls: Seq<LimiterCall>) -> Seq<Seq<char>>
    decreases calls.len(),
{
    if calls.len() == 0 {
        Seq::empty()
    } else {
        let before = keys_recorded(calls.drop_last());
        match calls.last() {
            LimiterCall::Record { key } => if before.contains(key) {
                before
            } else {
                before.push(key)
            },
            LimiterCall::Check { key } => before,
        }
    }
}

/// What is left of a burst after `n` records.
pub open spec fn burst_left(limit: RateLimit, n: nat) -> nat {
    if n < limit.burst {
        (limit.burst - n) as nat
    } else {
        0
    }
}

/// The bucket of a key that was recorded `n` times at one instant.
pub open spec fn spent(limit: RateLimit, n: nat, now_ms: u64) -> Bucket {
    Bucket { parts: (burst_left(limit, n) * limit.token()) as u128, updated_ms: now_ms }
}

/// However records and checks of any keys follow one another at one instant, a
/// key is allowed exactly while it was recorded fewer times than the burst. A
/// check consumes nothing and tracks nothing: it leaves every entry as it was,
/// and the keys tracked are those that were recorded.
pub proof fn the_burst_is_spent_whatever_comes_between(
    limit: RateLimit,
    max_keys: nat,
    now_ms: u64,
    calls: Seq<LimiterCall>,
    key: Seq<char>,
)
    requires
        limit.burst >= 1,
        keys_recorded(calls).len() <= max_keys,
    ensures
        decision(limit, after_calls(limit, max_keys, now_ms, calls), now_ms, key) is Allowed
            <==> times_recorded(calls, key) < limit.burst,
        checked(limit, after_calls(limit, max_keys, now_ms, calls), now_ms, key) == after_calls(
            limit,
            max_keys,
            now_ms,
            calls,
        ),
        after_calls(limit, max_keys, now_ms, calls).len() == keys_recorded(calls).len(),
        times_recorded(calls, key) == 0 <==> lookup(
            after_calls(limit, max_keys, now_ms, calls),
            key,
        ) is None,
{
    lemma_after_calls(limit, max_keys, now_ms, calls);
    lemma_spent_lookup(limit, max_keys, now_ms, calls, key);
    lemma_spent(limit, times_recorded(calls, key), now_ms);
    let entries = after_calls(limit, max_keys, now_ms, calls);
    if let Some(bucket) = lookup(entries, key) {
        lemma_key_index(entries, key);
        assert(put(entries, key, bucket) =~= entries);
    }
}

proof fn lemma_spent(limit: RateLimit, n: nat, now_ms: u64)
    requires
        limit.burst >= 1,
    ensures
        spent(limit, n, now_ms).parts == burst_left(limit, n) * limit.token(),
        spent(limit, n, now_ms).parts <= limit.capacity(),
        refilled(limit, spent(limit, n, now_ms), now_ms) == spent(limit, n, now_ms),
        drained(limit, spent(limit, n, now_ms)) == spent(limit, n + 1, now_ms),
        spent(limit, n, now_ms).parts >= limit.token() <==> n < limit.burst,
        limit.capacity() - limit.token() == burst_left(limit, 1) * limit.token(),
{
    lemma_capacity(limit);
    let left = burst_left(limit, n);
    let token = limit.token();
    let burst = limit.burst as nat;
    assert(left * token <= burst * token) by (nonlinear_arith)
        requires
            left <= burst,
    ;
    assert(left >= 1 ==> left * token >= token) by (nonlinear_arith);
    assert(left == 0 ==> left * token == 0) by (nonlinear_arith);
    assert(left >= 1 ==> (left - 1) * token == left * token - token) by (nonlinear_arith);
    assert((burst - 1) * token == burst * token - token) by (nonlinear_arith);
    assert(token >= 1);
    let next = burst_left(limit, n + 1);
    assert(next == (if left >= 1 {
        (left - 1) as nat
    } else {
        0
    }));
    assert(0 * token == 0) by (nonlinear_arith);
}

/// Each key that was recorded has what its records left of its burst, and no
/// other key is tracked.
proof fn lemma_after_calls(limit: RateLimit, max_keys: nat, now_ms: u64, calls: Seq<LimiterCall>)
    requires
        limit.burst >= 1,
        keys_recorded(calls).len() <= max_keys,
    ensures
        ({
            let keys = keys_recorded(calls);
            let entries = after_calls(limit, max_keys, now_ms, calls);
            &&& entries.len() == keys.len()
            &&& forall|i: int|
                0 <= i < keys.len() ==> #[trigger] entries[i] == (
                    keys[i],
                    spent(limit, times_recorded(calls, keys[i]), now_ms),
                )
            &&& distinct_keys(entries)
            &&& forall|key: Seq<char>|
                times_recorded(calls, key) > 0 <==> #[trigger] keys.contains(key)
        }),
    decreases calls.len(),
{
    if calls.len() > 0 {
        let earlier = calls.drop_last();
        let known = keys_recorded(earlier);
        let before = after_calls(limit, max_keys, now_ms, earlier);
        lemma_after_calls(limit, max_keys, now_ms, earlier);
        let after = after_calls(limit, max_keys, now_ms, calls);
        let keys = keys_recorded(calls);
        match calls.last() {
            LimiterCall::Check { key } => {
                lemma_spent_lookup(limit, max_keys, now_ms, earlier, key);
                lemma_spent(limit, times_recorded(earlier, key), now_ms);
                if let Some(bucket) = lookup(before, key) {
                    lemma_key_index(before, key);
                    assert(put(before, key, bucket) =~= before);
                }
                assert(after == before);
                assert forall|k: Seq<char>| times_recorded(calls, k) == times_recorded(earlier, k)
                    by {}
            },
            LimiterCall::Record { key } => {
                let n = times_recorded(earlier, key);
                lemma_spent_lookup(limit, max_keys, now_ms, earlier, key);
                lemma_spent(limit, n, now_ms);
                lemma_spent(limit, 0, now_ms);
                lemma_key_index(before, key);
                assert(times_recorded(calls, key) == n + 1);
                assert forall|k: Seq<char>| k != key implies times_recorded(calls, k)
                    == times_recorded(earlier, k) by {}
                if known.contains(key) {
                    let at = key_index(before, key);
                    assert(after == put(before, key, spent(limit, n + 1, now_ms)));
                    assert forall|i: int| 0 <= i < keys.len() implies #[trigger] after[i] == (
                        keys[i],
                        spent(limit, times_recorded(calls, keys[i]), now_ms),
                    ) by {
                        assert(before[i].0 == keys[i]);
                        if i != at {
                            assert(keys[i] != key) by {
                                if i < at {
                                    assert(before[i].0 != before[at].0);
                                } else {
                                    assert(before[at].0 != before[i].0);
                                }
                            }
                        }
                    }
                    assert forall|i: int, j: int| 0 <= i < j < after.len() implies #[trigger] after[i].0
                        != #[trigger] after[j].0 by {
                        assert(before[i].0 != before[j].0);
                    }
                } else {
                    assert(known.len() < max_keys);
                    assert(after == before.push((key, spent(limit, 1, now_ms))));
                    assert forall|i: int| 0 <= i < keys.len() implies #[trigger] after[i] == (
                        keys[i],
                        spent(limit, times_recorded(calls, keys[i]), now_ms),
                    ) by {
                        if i < known.len() {
                            assert(before[i].0 == known[i]);
                            assert(known.contains(known[i]));
                        }
                    }
                    assert forall|i: int, j: int| 0 <= i < j < after.len() implies #[trigger] after[i].0
                        != #[trigger] after[j].0 by {
                        assert(before[i].0 == known[i]);
                        assert(known.contains(known[i]));
                        if j < known.len() {
                            assert(before[i].0 != before[j].0);
                        }
                    }
                }
                assert forall|k: Seq<char>| times_recorded(calls, k) > 0 <==> #[trigger] keys.contains(k)
                    by {
                    if k == key {
                        if !known.contains(key) {
                            assert(keys[known.len() as int] == key);
                        }
                    } else {
                        if known.contains(k) {
                            let i = choose|i: int| 0 <= i < known.len() && known[i] == k;
                            assert(keys[i] == k);
                        }
                        if keys.contains(k) {
                            let i = choose|i: int| 0 <= i < keys.len() && keys[i] == k;
                            assert(known[i] == k);
                        }
                    }
                }
            },
        }
    }
}

proof fn lemma_spent_lookup(
    limit: RateLimit,
    max_keys: nat,
    now_ms: u64,
    calls: Seq<LimiterCall>,
    key: Seq<char>,
)
    requires
        ({
            let keys = keys_recorded(calls);
            let entries = after_calls(limit, max_keys, now_ms, calls);
            &&& entries.len() == keys.len()
            &&& forall|i: int|
                0 <= i < keys.len() ==> #[trigger] entries[i] == (
                    keys[i],
                    spent(limit, times_recorded(calls, keys[i]), now_ms),
                )
            &&& forall|key: Seq<char>|
                times_recorded(calls, key) > 0 <==> #[trigger] keys.contains(key)
        }),
    ensures
        lookup(after_calls(limit, max_keys, now_ms, calls), key) == (if times_recorded(calls, key)
            > 0 {
            Some(spent(limit, times_recorded(calls, key), now_ms))
        } else {
            None
        }),
{
    let entries = after_calls(limit, max_keys, now_ms, calls);
    let keys = keys_recorded(calls);
    lemma_key_index(entries, key);
    let at = key_index(entries, key);
    if keys.contains(key) {
        let i = choose|i: int| 0 <= i < keys.len() && keys[i] == key;
        assert(entries[i].0 == key);
        assert(at < entries.len());
        assert(entries[at].0 == key);
    } else if at < entries.len() {
        assert(entries[at].0 == keys[at]);
        assert(keys.contains(keys[at]));
    }
}

} // verus!
