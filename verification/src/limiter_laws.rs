//! What a caller relies on of a limiter, over the calls it makes.

use vstd::prelude::*;

use crate::error::{ApiError, ErrorCode};
use crate::json::{lemma_key_index, lemma_key_index_unique, lookup};
use crate::ratelimit::{
    lemma_capacity, too_many_requests, Bucket, Decision, Limiter, RateLimit,
};

verus! {

/// The bucket of a key, where the limiter tracks it.
pub open spec fn bucket_of(limiter: Limiter, key: Seq<char>) -> Option<Bucket> {
    lookup(limiter.entries(), key)
}

/// A limiter without a burst allows everything and tracks nothing.
pub proof fn a_disabled_limiter_allows_everything(
    limiter: &mut Limiter,
    now_ms: u64,
    key: &str,
    answer: Decision,
    other: &mut Limiter,
)
    requires
        call_ensures(Limiter::check_at, (limiter, now_ms, key), answer),
        call_ensures(Limiter::record_at, (other, now_ms, key), ()),
        old(limiter).rate().burst == 0,
        old(other).rate().burst == 0,
    ensures
        answer is Allowed,
        final(limiter).entries() == old(limiter).entries(),
        final(other).entries() == old(other).entries(),
{
}

/// A key that is not tracked is allowed, and looking at it does not track it.
pub proof fn an_unseen_key_is_allowed(
    limiter: &mut Limiter,
    now_ms: u64,
    key: &str,
    answer: Decision,
)
    requires
        call_ensures(Limiter::check_at, (limiter, now_ms, key), answer),
        bucket_of(*old(limiter), key@) is None,
    ensures
        answer is Allowed,
        final(limiter).entries() == old(limiter).entries(),
{
}

/// A tracked key is allowed exactly where its bucket has come to a whole token: what
/// it held, and for each millisecond since then the burst's share of the window, a
/// full burst at the most.
pub proof fn a_key_is_allowed_once_its_bucket_holds_a_token(
    limiter: &mut Limiter,
    now_ms: u64,
    key: &str,
    answer: Decision,
)
    requires
        old(limiter).wf(),
        call_ensures(Limiter::check_at, (limiter, now_ms, key), answer),
        old(limiter).rate().burst > 0,
        old(limiter).rate().window_ms > 0,
        bucket_of(*old(limiter), key@) is Some,
    ensures
        ({
            let rate = old(limiter).rate();
            let bucket = bucket_of(*old(limiter), key@)->0;
            let passed = if now_ms > bucket.updated_ms {
                now_ms - bucket.updated_ms
            } else {
                0
            };
            answer is Allowed <==> bucket.parts + passed * rate.burst >= rate.window_ms
        }),
{
    let rate = old(limiter).rate();
    let bucket = bucket_of(*old(limiter), key@)->0;
    lemma_capacity(rate);
    lemma_key_index(old(limiter).entries(), key@);
}

/// Recording takes one token: a key that was not tracked starts from a full burst,
/// one that is from what its bucket has come to, and none goes below nothing. Where
/// there is room, no other key is touched.
pub proof fn recording_takes_one_token(
    limiter: &mut Limiter,
    now_ms: u64,
    key: &str,
    other: Seq<char>,
)
    requires
        old(limiter).wf(),
        call_ensures(Limiter::record_at, (limiter, now_ms, key), ()),
        old(limiter).rate().burst > 0,
        old(limiter).rate().window_ms > 0,
    ensures
        ({
            let rate = old(limiter).rate();
            let full = rate.burst * rate.window_ms;
            &&& bucket_of(*final(limiter), key@) is Some
            &&& bucket_of(*final(limiter), key@)->0.updated_ms == now_ms
            &&& bucket_of(*old(limiter), key@) is None ==> bucket_of(
                *final(limiter),
                key@,
            )->0.parts == full - rate.window_ms
            &&& bucket_of(*old(limiter), key@) is Some ==> ({
                let bucket = bucket_of(*old(limiter), key@)->0;
                let passed = if now_ms > bucket.updated_ms {
                    now_ms - bucket.updated_ms
                } else {
                    0
                };
                let come = bucket.parts + passed * rate.burst;
                let held = if come < full {
                    come
                } else {
                    full
                };
                bucket_of(*final(limiter), key@)->0.parts == (if held >= rate.window_ms {
                    held - rate.window_ms
                } else {
                    0
                })
            })
            &&& other != key@ && old(limiter).entries().len() < old(limiter).bound()
                ==> bucket_of(*final(limiter), other) == bucket_of(*old(limiter), other)
        }),
{
    let rate = old(limiter).rate();
    let entries = old(limiter).entries();
    let after = final(limiter).entries();
    lemma_capacity(rate);
    lemma_key_index(entries, key@);
    assert(rate.capacity() == rate.burst * rate.window_ms);
    if bucket_of(*old(limiter), key@) is Some {
        let at = crate::json::key_index(entries, key@);
        lemma_key_index_unique(after, key@, at);
    } else {
        let kept = crate::ratelimit::evicted(
            rate,
            entries,
            old(limiter).bound(),
            now_ms,
        );
        crate::ratelimit::lemma_evicted(rate, entries, old(limiter).bound(), now_ms);
        assert forall|i: int| 0 <= i < kept.len() implies #[trigger] after[i].0 != key@ by {
            assert(after[i] == kept[i]);
            assert(entries.contains(kept[i]));
            let j = choose|j: int| 0 <= j < entries.len() && entries[j] == kept[i];
            assert(entries[j].0 != key@);
        }
        lemma_key_index_unique(after, key@, kept.len() as int);
    }
    if other != key@ {
        crate::ratelimit::keys_do_not_share_a_budget(
            rate,
            entries,
            old(limiter).bound(),
            now_ms,
            key@,
            other,
            now_ms,
        );
    }
}

/// A refused key is told the least wait after which it is allowed, in milliseconds,
/// and never less than a second.
pub proof fn a_refused_key_is_told_the_least_wait(
    limiter: &mut Limiter,
    now_ms: u64,
    key: &str,
    answer: Decision,
    wait: int,
)
    requires
        old(limiter).wf(),
        call_ensures(Limiter::check_at, (limiter, now_ms, key), answer),
        answer is Limited,
        old(limiter).rate().window_ms > 0,
        0 <= wait,
    ensures
        answer->retry_after_ms >= 1000,
        bucket_of(*old(limiter), key@) is Some,
        ({
            let rate = old(limiter).rate();
            let bucket = bucket_of(*old(limiter), key@)->0;
            let passed = if now_ms > bucket.updated_ms {
                now_ms - bucket.updated_ms
            } else {
                0
            };
            let come = bucket.parts + passed * rate.burst;
            &&& wait >= answer->retry_after_ms ==> come + wait * rate.burst >= rate.window_ms
            &&& wait < answer->retry_after_ms && answer->retry_after_ms > 1000 ==> come + wait
                * rate.burst < rate.window_ms
        }),
{
    let rate = old(limiter).rate();
    let entries = old(limiter).entries();
    lemma_capacity(rate);
    lemma_key_index(entries, key@);
    let bucket = bucket_of(*old(limiter), key@)->0;
    let now = crate::ratelimit::refilled(rate, bucket, now_ms);
    let burst = rate.burst as nat;
    let missing = (rate.token() - now.parts) as nat;
    let ms = (missing + burst - 1) as nat / burst;
    assert(ms <= missing && ms * burst >= missing && (ms - 1) * burst < missing) by (
    nonlinear_arith)
        requires
            missing >= 1,
            burst >= 1,
            ms == (missing + burst - 1) as nat / burst,
    ;
    let told = answer->retry_after_ms as int;
    assert(told == crate::ratelimit::wait_ms(rate, now));
    if wait >= told {
        assert(wait * burst >= missing) by (nonlinear_arith)
            requires
                wait >= ms,
                ms * burst >= missing,
                burst >= 1,
        ;
    } else if told > 1000 {
        assert(wait * burst < missing) by (nonlinear_arith)
            requires
                wait <= ms - 1,
                (ms - 1) * burst < missing,
                burst >= 1,
        ;
    }
}

/// A refusal is the limiter's own: it says when to come back in whole seconds, one
/// at the least.
pub proof fn a_refusal_says_when_to_come_back(ms: u64, e: ApiError)
    requires
        call_ensures(too_many_requests, (ms,), e),
    ensures
        e.status == 429 && e.code == ErrorCode::RateLimited,
        e.retry_after_secs is Some && e.retry_after_secs->0 >= 1,
        ms >= 1000 ==> e.retry_after_secs->0 * 1000 <= ms < e.retry_after_secs->0 * 1000 + 1000,
        ms < 1000 ==> e.retry_after_secs->0 == 1,
{
}

/// A new limiter tracks nothing, holds to the limit it was given, and tracks at
/// least one key.
pub proof fn a_new_limiter_tracks_nothing(limit: RateLimit, max_keys: usize, limiter: Limiter)
    requires
        call_ensures(Limiter::new, (limit, max_keys), limiter),
    ensures
        limiter.entries().len() == 0,
        limiter.rate() == limit,
        max_keys > 0 ==> limiter.bound() == max_keys,
        max_keys == 0 ==> limiter.bound() == 1,
{
}

} // verus!
