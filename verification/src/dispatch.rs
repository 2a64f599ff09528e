//! The webhook dispatcher: what a pass over the subscriptions decides.
//!
//! A pass plans, delivers and applies. Planning and applying are here: which
//! subscriptions this node works on, which events go out in which body, and
//! what a delivery's outcome changes. The caller reads the registry and the
//! log, makes the requests, and writes what it is told to.
//!
//! Progress advances **after** a delivery succeeds, so a crash mid-flight
//! redelivers rather than skipping. Every event carries a globally unique id,
//! and deduplicating is a set-membership test on the receiver.
//!
//! An event is never dropped for being large. A batch is trimmed to fit
//! [`Limits::max_payload_bytes`]; the remainder goes next pass. A single event
//! whose document alone exceeds the cap is delivered with `fullDocument` left
//! out and `fullDocumentOmitted` set.

use vstd::prelude::*;
use vstd::string::*;
use vstd::utf8::encode_utf8;

use crate::codec::{
    authenticate, char_text, hex_text, hmac_sha256, item_texts, json_text,
    member_texts as object_texts, plain_text_is_not_escaped, string_text, to_text,
};
use crate::json::{
    bson_members, bson_to_json, bson_view, converted_json_is_valid, document_to_json, find_key, get,
    get_str, insert, json_items, json_members, json_of, json_of_members, key_index, lemma_key_index,
    lemma_key_index_unique, lemma_put_distinct_or_not, lookup, named, push_hex, put, put_bson,
    text_under, valid, Bson, BsonView, Document, Json, JsonView,
};
use crate::metrics::Metrics;
use crate::ownership::{is_owner, member_texts, owns};
use crate::progress::{hlc_zero, Hlc, VersionVector};
use crate::text::{byte_len, decimal, joined, lemma_utf8_len_concat, push_decimal, utf8_len};

verus! {

/// Where per-node delivery progress lives.
pub const PROGRESS_COLLECTION: &'static str = "__webhook_progress";

/// Events delivered in one request. Small enough that a failed batch is a
/// cheap retry.
pub const BATCH: usize = 64;

/// How many entries of the log a pass reads for one subscription.
pub const SCAN: usize = 256;

/// How long a delivery may take before it counts as failed, in milliseconds.
pub const DELIVERY_TIMEOUT_MS: u64 = 10_000;

/// How often a node looks for work, in milliseconds.
pub const TICK_MS: u64 = 2_000;

/// Backoff bounds for an endpoint that is failing, in milliseconds.
pub const BACKOFF_MIN_MS: u64 = 2_000;

pub const BACKOFF_MAX_MS: u64 = 300_000;

/// Why the resume point has to move even when nothing is delivered: retention
/// collects by age, so a webhook on a quiet collection would otherwise sit
/// still while the horizon walked toward it. In milliseconds.
pub const DEFAULT_PROGRESS_HEARTBEAT_MS: u64 = 60_000;

/// What one node will spend on delivery.
#[derive(Clone, Copy, Debug, PartialEq, Eq, Structural)]
pub struct Limits {
    /// Deliveries in flight at once, across every subscription this node owns.
    pub max_concurrent_deliveries: usize,
    /// The largest request body a delivery may carry.
    pub max_payload_bytes: usize,
    /// How old a subscription's resume point may get before it is written
    /// forward even though nothing was delivered, in milliseconds.
    pub progress_heartbeat_ms: u64,
}

impl Default for Limits {
    fn default() -> (limits: Self)
        ensures
            limits == (Limits {
                max_concurrent_deliveries: 8,
                max_payload_bytes: 1_048_576,
                progress_heartbeat_ms: DEFAULT_PROGRESS_HEARTBEAT_MS,
            }),
    {
        Limits {
            max_concurrent_deliveries: 8,
            max_payload_bytes: 1024 * 1024,
            progress_heartbeat_ms: DEFAULT_PROGRESS_HEARTBEAT_MS,
        }
    }
}

/// What one dispatch pass did.
#[derive(Clone, Copy, Debug, PartialEq, Eq, Structural)]
pub struct DispatchOutcome {
    pub delivered: usize,
    pub failed: usize,
    pub skipped_not_owner: usize,
    /// Subscriptions passed over because they are still backing off.
    pub skipped_backoff: usize,
    /// Subscriptions stopped because the history they needed was collected.
    pub invalidated: usize,
}

impl Default for DispatchOutcome {
    fn default() -> (outcome: Self)
        ensures
            outcome == (DispatchOutcome {
                delivered: 0,
                failed: 0,
                skipped_not_owner: 0,
                skipped_backoff: 0,
                invalidated: 0,
            }),
    {
        DispatchOutcome {
            delivered: 0,
            failed: 0,
            skipped_not_owner: 0,
            skipped_backoff: 0,
            invalidated: 0,
        }
    }
}

/// A subscription's failures: how many in a row, and when it may be tried again.
#[derive(Clone, Copy, Debug, PartialEq, Eq, Structural)]
pub struct Failure {
    pub count: u32,
    /// Wider than the clock, so that a wait that begins at any reading of it has
    /// an end.
    pub next_ms: u128,
}

/// Per-subscription failure state, held across passes: one endpoint that has
/// stopped answering must not slow deliveries to every other. Time is in
/// milliseconds of one monotonic clock.
pub struct Backoff {
    failures: Vec<(String, Failure)>,
}

/// How long a subscription with this many failures in a row waits: doubling,
/// and capped.
pub open spec fn backoff_delay(count: u32) -> nat {
    let doubled = BACKOFF_MIN_MS as nat * power_of_two(
        if count < 8 {
            count as nat
        } else {
            8
        },
    );
    if doubled < BACKOFF_MAX_MS {
        doubled
    } else {
        BACKOFF_MAX_MS as nat
    }
}

/// Two to the power of `n`.
pub open spec fn power_of_two(n: nat) -> nat
    decreases n,
{
    if n == 0 {
        1
    } else {
        2 * power_of_two((n - 1) as nat)
    }
}

/// The failure state after one more failure at `now_ms`.
pub open spec fn failed_again(before: Option<Failure>, now_ms: u64) -> Failure {
    let count = match before {
        Some(f) => if f.count < u32::MAX {
            (f.count + 1) as u32
        } else {
            u32::MAX
        },
        None => 1u32,
    };
    Failure { count, next_ms: (now_ms + backoff_delay(count)) as u128 }
}

/// What is done to a backoff.
pub enum BackoffCall {
    Failed { subscription: Seq<char>, now_ms: u64 },
    Succeeded { subscription: Seq<char> },
    Prune { live: Seq<Seq<char>> },
}

/// A subscription's failure state after one call.
pub open spec fn after_call(
    before: Option<Failure>,
    call: BackoffCall,
    id: Seq<char>,
) -> Option<Failure> {
    match call {
        BackoffCall::Failed { subscription, now_ms } => if id == subscription {
            Some(failed_again(before, now_ms))
        } else {
            before
        },
        BackoffCall::Succeeded { subscription } => if id == subscription {
            None
        } else {
            before
        },
        BackoffCall::Prune { live } => if live.contains(id) {
            before
        } else {
            None
        },
    }
}

/// How many failures a subscription had in these calls since it last succeeded
/// or was last pruned.
pub open spec fn failures_since(calls: Seq<BackoffCall>, id: Seq<char>) -> nat
    decreases calls.len(),
{
    if calls.len() == 0 {
        0
    } else {
        let before = failures_since(calls.drop_last(), id);
        match calls.last() {
            BackoffCall::Failed { subscription, now_ms } => if id == subscription {
                before + 1
            } else {
                before
            },
            BackoffCall::Succeeded { subscription } => if id == subscription {
                0
            } else {
                before
            },
            BackoffCall::Prune { live } => if live.contains(id) {
                before
            } else {
                0
            },
        }
    }
}

fn delay_ms(count: u32) -> (ms: u64)
    ensures
        ms == backoff_delay(count),
        ms <= BACKOFF_MAX_MS,
{
    reveal_with_fuel(power_of_two, 9);
    let doubled: u64 = match count {
        0 => BACKOFF_MIN_MS,
        1 => BACKOFF_MIN_MS * 2,
        2 => BACKOFF_MIN_MS * 4,
        3 => BACKOFF_MIN_MS * 8,
        4 => BACKOFF_MIN_MS * 16,
        5 => BACKOFF_MIN_MS * 32,
        6 => BACKOFF_MIN_MS * 64,
        7 => BACKOFF_MIN_MS * 128,
        _ => BACKOFF_MIN_MS * 256,
    };
    if doubled < BACKOFF_MAX_MS {
        doubled
    } else {
        BACKOFF_MAX_MS
    }
}

impl Backoff {
    /// The subscriptions that have failed, each with its state.
    pub closed spec fn states(self) -> Seq<(Seq<char>, Failure)> {
        named(self.failures@)
    }

    /// A subscription's failure state, where it has one.
    pub open spec fn state(self, subscription: Seq<char>) -> Option<Failure> {
        lookup(self.states(), subscription)
    }

    /// How many times in a row a subscription has failed.
    pub open spec fn failures_of(self, subscription: Seq<char>) -> u32 {
        match self.state(subscription) {
            Some(f) => f.count,
            None => 0u32,
        }
    }

    /// Whether a subscription may be attempted.
    pub open spec fn is_ready(self, subscription: Seq<char>, now_ms: u64) -> bool {
        match self.state(subscription) {
            Some(f) => now_ms >= f.next_ms,
            None => true,
        }
    }

    /// Nothing has failed.
    pub fn new() -> (b: Self)
        ensures
            b.wf(),
            forall|id: Seq<char>| #[trigger] b.state(id) is None,
    {
        let b = Backoff { failures: Vec::new() };
        assert(b.states() =~= Seq::<(Seq<char>, Failure)>::empty());
        b
    }

    /// Whether this subscription may be attempted now.
    pub fn ready(&self, subscription: &str, now_ms: u64) -> (b: bool)
        ensures
            b == self.is_ready(subscription@, now_ms),
    {
        let at: usize = find_key(&self.failures, subscription);
        if at < self.failures.len() {
            now_ms as u128 >= self.failures[at].1.next_ms
        } else {
            true
        }
    }

    /// Note a failed delivery.
    pub fn failed(&mut self, subscription: &str, now_ms: u64)
        ensures
            old(self).wf() ==> final(self).wf(),
            forall|id: Seq<char>| #[trigger]
                final(self).state(id) == after_call(
                    old(self).state(id),
                    BackoffCall::Failed { subscription: subscription@, now_ms },
                    id,
                ),
    {
        let ghost before = self.states();
        let at: usize = find_key(&self.failures, subscription);
        let count: u32 = if at < self.failures.len() {
            let count: u32 = self.failures[at].1.count;
            if count < u32::MAX {
                count + 1
            } else {
                count
            }
        } else {
            1
        };
        let delay: u64 = delay_ms(count);
        let failure = Failure { count, next_ms: now_ms as u128 + delay as u128 };
        insert(&mut self.failures, subscription.to_owned(), failure);
        proof {
            lemma_key_index(before, subscription@);
            lemma_lookup_put(before, subscription@, failure);
            lemma_put_distinct_or_not(before, subscription@, failure);
        }
    }

    /// Note a delivery that succeeded: nothing is held against the
    /// subscription any more.
    pub fn succeeded(&mut self, subscription: &str)
        requires
            old(self).wf(),
        ensures
            final(self).wf(),
            forall|id: Seq<char>| #[trigger]
                final(self).state(id) == after_call(
                    old(self).state(id),
                    BackoffCall::Succeeded { subscription: subscription@ },
                    id,
                ),
    {
        let ghost before = self.states();
        let at: usize = find_key(&self.failures, subscription);
        proof {
            lemma_key_index(before, subscription@);
        }
        if at < self.failures.len() {
            self.failures.remove(at);
            assert(self.states() =~= before.remove(at as int));
            proof {
                lemma_lookup_remove(before, at as int);
            }
        }
    }

    /// Every subscription has at most one state.
    pub open spec fn wf(self) -> bool {
        crate::json::distinct_keys(self.states())
    }

    /// Consecutive failures recorded for a subscription.
    pub fn failure_count(&self, subscription: &str) -> (n: u32)
        ensures
            n == self.failures_of(subscription@),
    {
        let at: usize = find_key(&self.failures, subscription);
        if at < self.failures.len() {
            self.failures[at].1.count
        } else {
            0
        }
    }

    /// Forget subscriptions that no longer exist. Failure state is otherwise
    /// only cleared by a successful delivery, which a removed subscription can
    /// never have.
    pub fn prune(&mut self, live: &Vec<String>)
        requires
            old(self).wf(),
        ensures
            final(self).wf(),
            forall|id: Seq<char>| #[trigger]
                final(self).state(id) == after_call(
                    old(self).state(id),
                    BackoffCall::Prune { live: member_texts(live@) },
                    id,
                ),
    {
        let ghost all = self.states();
        let ghost texts = member_texts(live@);
        let ghost mut seen: int = 0;
        let mut i: usize = 0;
        proof {
            assert(self.states().skip(0) =~= all.skip(0));
            assert(all.take(0) =~= Seq::<(Seq<char>, Failure)>::empty());
            assert(self.states().take(0) =~= Seq::<(Seq<char>, Failure)>::empty());
        }
        while i < self.failures.len()
            invariant
                i <= self.failures.len(),
                0 <= seen <= all.len(),
                texts == member_texts(live@),
                self.states().take(i as int) == kept_alive(all.take(seen), texts),
                self.states().skip(i as int) == all.skip(seen),
            decreases self.failures.len() - i,
        {
            let ghost now = self.states();
            proof {
                assert(now.skip(i as int)[0] == now[i as int]);
                assert(all.skip(seen).len() > 0);
                assert(all[seen] == all.skip(seen)[0]);
                assert(all.take(seen + 1).drop_last() =~= all.take(seen));
                assert(all.take(seen + 1).last() == all[seen]);
                assert(all.skip(seen + 1) =~= all.skip(seen).skip(1));
                seen = seen + 1;
            }
            if listed(live, self.failures[i].0.as_str()) {
                i = i + 1;
                proof {
                    assert(now.take(i as int) =~= now.take(i - 1).push(now[i - 1]));
                    assert(now.skip(i as int) =~= now.skip(i - 1).skip(1));
                }
            } else {
                self.failures.remove(i);
                proof {
                    assert(self.states() =~= now.remove(i as int));
                    assert(self.states().take(i as int) =~= now.take(i as int));
                    assert(self.states().skip(i as int) =~= now.skip(i as int).skip(1));
                }
            }
        }
        proof {
            assert(all.skip(seen).len() == 0);
            assert(all.take(seen) =~= all);
            assert(self.states().take(i as int) =~= self.states());
            assert forall|id: Seq<char>| #[trigger] self.state(id) == (if texts.contains(id) {
                lookup(all, id)
            } else {
                None
            }) by {
                lemma_kept_alive(all, texts, id);
            }
            lemma_kept_alive_distinct(all, texts);
        }
    }
}

/// The states of the subscriptions among `live`.
pub open spec fn kept_alive(
    states: Seq<(Seq<char>, Failure)>,
    live: Seq<Seq<char>>,
) -> Seq<(Seq<char>, Failure)>
    decreases states.len(),
{
    if states.len() == 0 {
        Seq::empty()
    } else {
        let before = kept_alive(states.drop_last(), live);
        if live.contains(states.last().0) {
            before.push(states.last())
        } else {
            before
        }
    }
}

proof fn lemma_kept_alive_distinct(states: Seq<(Seq<char>, Failure)>, live: Seq<Seq<char>>)
    requires
        crate::json::distinct_keys(states),
    ensures
        crate::json::distinct_keys(kept_alive(states, live)),
        forall|i: int|
            0 <= i < kept_alive(states, live).len() ==> states.contains(
                #[trigger] kept_alive(states, live)[i],
            ),
    decreases states.len(),
{
    if states.len() > 0 {
        let before = states.drop_last();
        assert(crate::json::distinct_keys(before)) by {
            assert forall|i: int, j: int| 0 <= i < j < before.len() implies #[trigger] before[i].0
                != #[trigger] before[j].0 by {
                assert(states[i].0 != states[j].0);
            }
        }
        lemma_kept_alive_distinct(before, live);
        let rest = kept_alive(before, live);
        let all = kept_alive(states, live);
        assert forall|i: int| 0 <= i < all.len() implies states.contains(#[trigger] all[i]) by {
            if i < rest.len() {
                assert(before.contains(rest[i]));
                let j = choose|j: int| 0 <= j < before.len() && before[j] == rest[i];
                assert(states[j] == all[i]);
            } else {
                assert(states[states.len() - 1] == all[i]);
            }
        }
        assert forall|i: int, j: int| 0 <= i < j < all.len() implies #[trigger] all[i].0
            != #[trigger] all[j].0 by {
            assert(all[i] == rest[i]);
            if j < rest.len() {
                assert(rest[i].0 != rest[j].0);
            } else {
                assert(before.contains(rest[i]));
                let k = choose|k: int| 0 <= k < before.len() && before[k] == rest[i];
                assert(states[k].0 != states[states.len() - 1].0);
            }
        }
    }
}

proof fn lemma_kept_alive(
    states: Seq<(Seq<char>, Failure)>,
    live: Seq<Seq<char>>,
    id: Seq<char>,
)
    ensures
        lookup(kept_alive(states, live), id) == (if live.contains(id) {
            lookup(states, id)
        } else {
            None
        }),
    decreases states.len(),
{
    let kept = kept_alive(states, live);
    if states.len() > 0 {
        let before = states.drop_last();
        let rest = kept_alive(before, live);
        lemma_kept_alive(before, live, id);
        lemma_lookup_push(before, states.last(), id);
        assert(before.push(states.last()) =~= states);
        lemma_lookup_push(rest, states.last(), id);
    }
}

proof fn lemma_lookup_push<V>(members: Seq<(Seq<char>, V)>, last: (Seq<char>, V), key: Seq<char>)
    ensures
        lookup(members.push(last), key) == (match lookup(members, key) {
            Some(v) => Some(v),
            None => if last.0 == key {
                Some(last.1)
            } else {
                None
            },
        }),
{
    let all = members.push(last);
    lemma_key_index(members, key);
    let at = key_index(members, key);
    let now = if at < members.len() || last.0 == key {
        at
    } else {
        at + 1
    };
    assert forall|i: int| 0 <= i < now implies #[trigger] all[i].0 != key by {
        if i < members.len() {
            assert(members[i].0 != key);
        }
    }
    lemma_key_index_unique(all, key, now);
}

pub proof fn lemma_lookup_put<V>(members: Seq<(Seq<char>, V)>, key: Seq<char>, value: V)
    ensures
        forall|k: Seq<char>| #[trigger]
            lookup(put(members, key, value), k) == (if k == key {
                Some(value)
            } else {
                lookup(members, k)
            }),
{
    let after = put(members, key, value);
    lemma_key_index(members, key);
    assert forall|k: Seq<char>| #[trigger] lookup(after, k) == (if k == key {
        Some(value)
    } else {
        lookup(members, k)
    }) by {
        lemma_key_index(members, k);
        let at = if k == key {
            key_index(members, key)
        } else if key_index(members, k) < members.len() {
            key_index(members, k)
        } else {
            after.len() as int
        };
        assert forall|i: int| 0 <= i < at implies #[trigger] after[i].0 != k by {
            if i < members.len() {
                assert(members[i].0 != k);
            }
        }
        lemma_key_index_unique(after, k, at);
    }
}

proof fn lemma_lookup_remove<V>(members: Seq<(Seq<char>, V)>, at: int)
    requires
        crate::json::distinct_keys(members),
        0 <= at < members.len(),
    ensures
        crate::json::distinct_keys(members.remove(at)),
        forall|k: Seq<char>| #[trigger]
            lookup(members.remove(at), k) == (if k == members[at].0 {
                None
            } else {
                lookup(members, k)
            }),
{
    let after = members.remove(at);
    assert forall|i: int, j: int| 0 <= i < j < after.len() implies #[trigger] after[i].0
        != #[trigger] after[j].0 by {
        let a = if i < at { i } else { i + 1 };
        let b = if j < at { j } else { j + 1 };
        assert(members[a].0 != members[b].0);
    }
    assert forall|k: Seq<char>| #[trigger] lookup(after, k) == (if k == members[at].0 {
        None
    } else {
        lookup(members, k)
    }) by {
        lemma_key_index(members, k);
        let was = key_index(members, k);
        let now = if was == members.len() || k == members[at].0 {
            after.len() as int
        } else if was < at {
            was
        } else {
            was - 1
        };
        assert forall|i: int| 0 <= i < now implies #[trigger] after[i].0 != k by {
            let a = if i < at { i } else { i + 1 };
            assert(after[i] == members[a]);
            if k == members[at].0 {
                if a < at {
                    assert(members[a].0 != members[at].0);
                } else {
                    assert(members[at].0 != members[a].0);
                }
            }
        }
        if now < after.len() {
            assert(after[now] == members[was]);
        }
        lemma_key_index_unique(after, k, now);
    }
}

fn listed(names: &Vec<String>, name: &str) -> (b: bool)
    ensures
        b == member_texts(names@).contains(name@),
{
    let ghost texts = member_texts(names@);
    let mut i: usize = 0;
    while i < names.len()
        invariant
            i <= names.len(),
            texts == member_texts(names@),
            forall|k: int| 0 <= k < i ==> #[trigger] texts[k] != name@,
        decreases names.len() - i,
    {
        if *names[i].as_str() == *name {
            assert(texts[i as int] == name@);
            return true;
        }
        i = i + 1;
    }
    false
}

/// What an entry of the log did.
#[derive(Clone, Copy, Debug, PartialEq, Eq, Structural)]
pub enum OpKind {
    Insert,
    Update,
    Replace,
    Delete,
    CreateCollection,
    DropCollection,
    CreateIndex,
    DropIndex,
    UniqueViolation,
}

/// The name of a document change. Schema changes and violation records are
/// none.
pub open spec fn operation_name(kind: OpKind) -> Option<Seq<char>> {
    match kind {
        OpKind::Insert => Some("insert"@),
        OpKind::Update => Some("update"@),
        OpKind::Replace => Some("replace"@),
        OpKind::Delete => Some("delete"@),
        _ => None,
    }
}

fn operation(kind: OpKind) -> (name: Option<&'static str>)
    ensures
        name is Some <==> operation_name(kind) is Some,
        name matches Some(n) ==> operation_name(kind) == Some(n@),
{
    match kind {
        OpKind::Insert => Some("insert"),
        OpKind::Update => Some("update"),
        OpKind::Replace => Some("replace"),
        OpKind::Delete => Some("delete"),
        _ => None,
    }
}

/// When and where a change was made. No two changes share one.
#[derive(Debug)]
pub struct Stamp {
    pub hlc: Hlc,
    /// The clock reading as text.
    pub time: String,
    /// The origin.
    pub node: String,
}

impl Stamp {
    /// The same stamp.
    pub fn duplicate(&self) -> (s: Stamp)
        ensures
            s.hlc == self.hlc,
            s.time == self.time,
            s.node == self.node,
    {
        Stamp { hlc: self.hlc, time: self.time.clone(), node: self.node.clone() }
    }
}

/// One entry of the log.
#[derive(Debug)]
pub struct OplogEntry {
    pub stamp: Stamp,
    pub kind: OpKind,
    pub collection: u64,
    /// The id of the document that changed.
    pub doc_id: Option<Bson>,
    /// The document as the change left it.
    pub document: Option<Document>,
}

/// Whether an entry belongs to a subscription on a collection: a document
/// change of that collection, and of one of the operations asked for where any
/// are.
pub open spec fn is_wanted(
    entry: OplogEntry,
    collection_id: u64,
    operations: Seq<Seq<char>>,
) -> bool {
    entry.collection == collection_id && match operation_name(entry.kind) {
        Some(name) => operations.len() == 0 || operations.contains(name),
        None => false,
    }
}

pub fn wanted(entry: &OplogEntry, collection_id: u64, operations: &Vec<String>) -> (b: bool)
    ensures
        b == is_wanted(*entry, collection_id, member_texts(operations@)),
{
    if entry.collection != collection_id {
        return false;
    }
    match operation(entry.kind) {
        Some(name) => operations.len() == 0 || listed(operations, name),
        None => false,
    }
}

/// A change's id: its clock reading and its origin.
pub open spec fn id_of(stamp: Stamp) -> Seq<char> {
    stamp.time@ + "-"@ + stamp.node@
}

/// A globally unique id for one change: unique without coordination, identical
/// on every node that holds the entry, and stable across redeliveries.
pub fn event_id(entry: &OplogEntry) -> (id: String)
    ensures
        id@ == id_of(entry.stamp),
{
    stamp_id(&entry.stamp)
}

fn stamp_id(stamp: &Stamp) -> (id: String)
    ensures
        id@ == id_of(*stamp),
{
    let mut id = stamp.time.clone();
    id.append("-");
    id.append(stamp.node.as_str());
    id
}

/// An event's fields without the document.
pub open spec fn bare_event(
    entry: OplogEntry,
    database: Seq<char>,
    collection: Seq<char>,
) -> Seq<(Seq<char>, JsonView)> {
    let fields = seq![
        ("eventId"@, JsonView::String(id_of(entry.stamp))),
        (
            "operationType"@,
            JsonView::String(
                match operation_name(entry.kind) {
                    Some(name) => name,
                    None => "unknown"@,
                },
            ),
        ),
        ("clusterTime"@, JsonView::String(entry.stamp.time@)),
        ("database"@, JsonView::String(database)),
        ("collection"@, JsonView::String(collection)),
    ];
    match entry.doc_id {
        Some(id) => fields.push(("documentKey"@, JsonView::Object(seq![("_id"@, json_of(id@))]))),
        None => fields,
    }
}

/// An event's fields, the document among them where the entry holds one.
pub open spec fn full_event(
    entry: OplogEntry,
    database: Seq<char>,
    collection: Seq<char>,
) -> Seq<(Seq<char>, JsonView)> {
    let fields = bare_event(entry, database, collection);
    match entry.document {
        Some(doc) => fields.push(
            ("fullDocument"@, JsonView::Object(json_of_members(bson_members(doc@)))),
        ),
        None => fields,
    }
}

/// An event too large for the payload cap: the document is left out, and the
/// event says so.
pub open spec fn stripped_event(
    entry: OplogEntry,
    database: Seq<char>,
    collection: Seq<char>,
) -> Seq<(Seq<char>, JsonView)> {
    bare_event(entry, database, collection).push(
        ("fullDocumentOmitted"@, JsonView::Bool(true)),
    ).push(
        (
            "omittedReason"@,
            JsonView::String(
                "document exceeds webhooks.max_payload_bytes; fetch it from the collection"@,
            ),
        ),
    )
}

proof fn lemma_event_names()
    ensures
        ({
            let names = seq![
                "eventId"@,
                "operationType"@,
                "clusterTime"@,
                "database"@,
                "collection"@,
                "documentKey"@,
                "fullDocument"@,
                "fullDocumentOmitted"@,
                "omittedReason"@,
            ];
            forall|i: int, j: int|
                0 <= i < j < 9 ==> #[trigger] names[i] != #[trigger] names[j]
        }),
{
    reveal_strlit("eventId");
    reveal_strlit("operationType");
    reveal_strlit("clusterTime");
    reveal_strlit("database");
    reveal_strlit("collection");
    reveal_strlit("documentKey");
    reveal_strlit("fullDocument");
    reveal_strlit("fullDocumentOmitted");
    reveal_strlit("omittedReason");
    let names = seq![
        "eventId"@,
        "operationType"@,
        "clusterTime"@,
        "database"@,
        "collection"@,
        "documentKey"@,
        "fullDocument"@,
        "fullDocumentOmitted"@,
        "omittedReason"@,
    ];
    assert(names[0].len() == 7 && names[1].len() == 13 && names[2].len() == 11);
    assert(names[3].len() == 8 && names[4].len() == 10 && names[5].len() == 11);
    assert(names[6].len() == 12 && names[7].len() == 19 && names[8].len() == 13);
    assert(names[2][0] == 'c' && names[5][0] == 'd');
    assert(names[1][1] == 'p' && names[8][1] == 'm');
}

/// Every event is a valid JSON value.
proof fn lemma_events_valid(entry: OplogEntry, database: Seq<char>, collection: Seq<char>)
    ensures
        valid(JsonView::Object(bare_event(entry, database, collection))),
        valid(JsonView::Object(full_event(entry, database, collection))),
        valid(JsonView::Object(stripped_event(entry, database, collection))),
{
    lemma_event_names();
    let names = seq![
        "eventId"@,
        "operationType"@,
        "clusterTime"@,
        "database"@,
        "collection"@,
        "documentKey"@,
        "fullDocument"@,
        "fullDocumentOmitted"@,
        "omittedReason"@,
    ];
    let bare = bare_event(entry, database, collection);
    if let Some(id) = entry.doc_id {
        converted_json_is_valid(id@);
        let inner = JsonView::Object(seq![("_id"@, json_of(id@))]);
        assert(valid(inner->Object_0[0].1));
        assert(valid(inner));
    }
    if let Some(doc) = entry.document {
        let whole = BsonView::Document(bson_members(doc@));
        converted_json_is_valid(whole);
        assert(json_of(whole) == JsonView::Object(json_of_members(bson_members(doc@))));
    }
    assert forall|i: int| 0 <= i < bare.len() implies #[trigger] bare[i].0 == names[i] && valid(
        bare[i].1,
    ) by {}
    lemma_valid_object(bare, names, bare.len() as int);
    let full = full_event(entry, database, collection);
    assert forall|i: int| 0 <= i < full.len() implies valid((#[trigger] full[i]).1) by {
        if i < bare.len() {
            assert(full[i] == bare[i]);
        }
    }
    assert(crate::json::distinct_keys(full)) by {
        assert forall|i: int, j: int| 0 <= i < j < full.len() implies #[trigger] full[i].0
            != #[trigger] full[j].0 by {
            assert(full[i] == bare[i] && bare[i].0 == names[i]);
            if j < bare.len() {
                assert(full[j] == bare[j] && bare[j].0 == names[j]);
                assert(names[i] != names[j]);
            } else {
                assert(full[j].0 == names[6]);
                assert(names[i] != names[6]);
            }
        }
    }
    let stripped = stripped_event(entry, database, collection);
    assert forall|i: int| 0 <= i < stripped.len() implies valid((#[trigger] stripped[i]).1) by {
        if i < bare.len() {
            assert(stripped[i] == bare[i]);
        }
    }
    assert(crate::json::distinct_keys(stripped)) by {
        assert forall|i: int, j: int| 0 <= i < j < stripped.len() implies #[trigger] stripped[i].0
            != #[trigger] stripped[j].0 by {
            let a = if i < bare.len() { i } else { i - bare.len() + 7 };
            let b = if j < bare.len() { j } else { j - bare.len() + 7 };
            if i < bare.len() {
                assert(stripped[i] == bare[i] && bare[i].0 == names[i]);
            }
            if j < bare.len() {
                assert(stripped[j] == bare[j] && bare[j].0 == names[j]);
            }
            assert(stripped[i].0 == names[a] && stripped[j].0 == names[b]);
            assert(names[a] != names[b]);
        }
    }
}

proof fn lemma_valid_object(members: Seq<(Seq<char>, JsonView)>, names: Seq<Seq<char>>, n: int)
    requires
        n == members.len(),
        n <= names.len(),
        forall|i: int|
            0 <= i < n ==> #[trigger] members[i].0 == names[i] && valid(members[i].1),
        forall|i: int, j: int|
            0 <= i < j < names.len() ==> #[trigger] names[i] != #[trigger] names[j],
    ensures
        valid(JsonView::Object(members)),
{
    assert forall|i: int, j: int| 0 <= i < j < members.len() implies #[trigger] members[i].0
        != #[trigger] members[j].0 by {
        assert(names[i] != names[j]);
    }
    assert forall|i: int| 0 <= i < members.len() implies valid((#[trigger] members[i]).1) by {
        assert(members[i].0 == names[i]);
    }
}

/// An event's fields without the document.
fn bare_fields(entry: &OplogEntry, database: &str, collection: &str) -> (fields: Vec<
    (String, Json),
>)
    ensures
        json_members(fields@) == bare_event(*entry, database@, collection@),
{
    broadcast use crate::json::json_view;

    let name = match operation(entry.kind) {
        Some(name) => name,
        None => "unknown",
    };
    let mut fields: Vec<(String, Json)> = vec![
        ("eventId".to_owned(), Json::String(event_id(entry))),
        ("operationType".to_owned(), Json::String(name.to_owned())),
        ("clusterTime".to_owned(), Json::String(entry.stamp.time.clone())),
        ("database".to_owned(), Json::String(database.to_owned())),
        ("collection".to_owned(), Json::String(collection.to_owned())),
    ];
    let ghost first = fields@;
    match &entry.doc_id {
        Some(id) => {
            let inner: Vec<(String, Json)> = vec![("_id".to_owned(), bson_to_json(id))];
            assert(json_members(inner@) =~= seq![("_id"@, json_of(id@))]);
            let key = Json::Object(inner);
            fields.push(("documentKey".to_owned(), key));
        },
        None => {},
    }
    assert(json_members(fields@) =~= bare_event(*entry, database@, collection@));
    fields
}

/// The same event with the document left out.
pub fn render_without_document(entry: &OplogEntry, database: &str, collection: &str) -> (
    event: Json)
    ensures
        event@ == JsonView::Object(bare_event(*entry, database@, collection@)),
        valid(event@),
{
    broadcast use crate::json::json_view;

    proof {
        lemma_events_valid(*entry, database@, collection@);
    }
    Json::Object(bare_fields(entry, database, collection))
}

/// The event body a receiver gets, in the change-stream shape, with the
/// database and collection names, which a receiver fed by several
/// subscriptions routes on.
pub fn render(entry: &OplogEntry, database: &str, collection: &str) -> (event: Json)
    ensures
        event@ == JsonView::Object(full_event(*entry, database@, collection@)),
        valid(event@),
{
    broadcast use crate::json::json_view;

    proof {
        lemma_events_valid(*entry, database@, collection@);
    }
    let mut fields = bare_fields(entry, database, collection);
    let ghost first = json_members(fields@);
    match &entry.document {
        Some(doc) => {
            fields.push(("fullDocument".to_owned(), document_to_json(doc)));
        },
        None => {},
    }
    assert(json_members(fields@) =~= full_event(*entry, database@, collection@));
    Json::Object(fields)
}

/// The event of a document that is too large to be sent.
fn render_stripped(entry: &OplogEntry, database: &str, collection: &str) -> (event: Json)
    ensures
        event@ == JsonView::Object(stripped_event(*entry, database@, collection@)),
        valid(event@),
{
    broadcast use crate::json::json_view;

    proof {
        lemma_events_valid(*entry, database@, collection@);
    }
    let mut fields = bare_fields(entry, database, collection);
    let ghost first = json_members(fields@);
    fields.push(("fullDocumentOmitted".to_owned(), Json::Bool(true)));
    fields.push(
        (
            "omittedReason".to_owned(),
            Json::String(
                "document exceeds webhooks.max_payload_bytes; fetch it from the collection".to_owned(),
            ),
        ),
    );
    assert(json_members(fields@) =~= stripped_event(*entry, database@, collection@));
    Json::Object(fields)
}

/// The body envelope.
pub open spec fn envelope_of(subscription: Seq<char>, events: Seq<JsonView>) -> JsonView {
    JsonView::Object(
        seq![
            ("subscription"@, JsonView::String(subscription)),
            ("events"@, JsonView::Array(events)),
        ],
    )
}

proof fn lemma_envelope_valid(subscription: Seq<char>, events: Seq<JsonView>)
    requires
        forall|i: int| 0 <= i < events.len() ==> valid(#[trigger] events[i]),
    ensures
        valid(envelope_of(subscription, events)),
{
    reveal_strlit("subscription");
    reveal_strlit("events");
    assert("subscription"@.len() != "events"@.len());
    let members = envelope_of(subscription, events)->Object_0;
    assert(valid(JsonView::Array(events)));
    assert(valid(members[0].1));
    assert(valid(members[1].1));
}

/// The body envelope, as text: the cap covers what actually goes on the wire.
pub fn envelope(subscription: &str, events: Vec<Json>) -> (body: String)
    requires
        forall|i: int| 0 <= i < events@.len() ==> valid((#[trigger] events@[i])@),
    ensures
        body@ == json_text(envelope_of(subscription@, json_items(events@))),
{
    broadcast use crate::json::json_view;

    let ghost views = json_items(events@);
    proof {
        assert forall|i: int| 0 <= i < views.len() implies valid(#[trigger] views[i]) by {
            assert(views[i] == events@[i]@);
        }
        lemma_envelope_valid(subscription@, views);
    }
    let members: Vec<(String, Json)> = vec![
        ("subscription".to_owned(), Json::String(subscription.to_owned())),
        ("events".to_owned(), Json::Array(events)),
    ];
    assert(json_members(members@) =~= envelope_of(subscription@, views)->Object_0);
    to_text(&Json::Object(members))
}

/// How many bytes the envelope costs before any event is in it.
pub open spec fn overhead(subscription: Seq<char>) -> nat {
    utf8_len(json_text(envelope_of(subscription, Seq::empty())))
}

/// How many bytes the envelope costs before any event is in it. Measured
/// rather than assumed: the subscription id is inside it.
pub fn envelope_overhead(subscription: &str) -> (n: usize)
    ensures
        n == overhead(subscription@),
        n == 29 + utf8_len(string_text(subscription@)),
{
    proof {
        the_overhead_is_what_surrounds_the_id(subscription@);
    }
    let none: Vec<Json> = Vec::new();
    assert(json_items(none@) =~= Seq::<JsonView>::empty());
    byte_len(envelope(subscription, none).as_str())
}

/// An event's text takes this many bytes.
pub open spec fn event_bytes(
    entry: OplogEntry,
    database: Seq<char>,
    collection: Seq<char>,
) -> nat {
    utf8_len(json_text(JsonView::Object(full_event(entry, database, collection))))
}

/// How many of the entries, from the first, fit into what `used` bytes leave of
/// `max`: each costs its own text, and a comma where it is not the first.
pub open spec fn taken(
    entries: Seq<OplogEntry>,
    database: Seq<char>,
    collection: Seq<char>,
    used: nat,
    first: bool,
    max: nat,
) -> nat
    decreases entries.len(),
{
    if entries.len() == 0 {
        0
    } else {
        let cost = event_bytes(entries[0], database, collection) + (if first {
            0nat
        } else {
            1
        });
        if used + cost <= max {
            1 + taken(entries.skip(1), database, collection, used + cost, false, max)
        } else {
            0
        }
    }
}

/// The entries one request may carry: no more than a batch.
pub open spec fn batch_of(entries: Seq<OplogEntry>) -> Seq<OplogEntry> {
    if entries.len() <= BATCH {
        entries
    } else {
        entries.take(BATCH as int)
    }
}

/// How many of the entries, from the first, fit into one body.
pub open spec fn fitting(
    job: Job,
    entries: Seq<OplogEntry>,
    max_payload_bytes: usize,
) -> nat {
    taken(
        batch_of(entries),
        job.database@,
        job.collection@,
        overhead(job.id@),
        true,
        max_payload_bytes as nat,
    )
}

/// How many of the entries, from the first, one body covers: those that fit,
/// and the first one in any case.
pub open spec fn covered(job: Job, entries: Seq<OplogEntry>, max_payload_bytes: usize) -> nat {
    let n = fitting(job, entries, max_payload_bytes);
    if n == 0 && entries.len() > 0 {
        1
    } else {
        n
    }
}

/// The events of one body: the entries that fit, whole; or, where not even the
/// first does, that one without its document.
pub open spec fn events_of(
    job: Job,
    entries: Seq<OplogEntry>,
    max_payload_bytes: usize,
) -> Seq<JsonView> {
    let n = fitting(job, entries, max_payload_bytes);
    if n == 0 && entries.len() > 0 {
        seq![
            JsonView::Object(stripped_event(entries[0], job.database@, job.collection@)),
        ]
    } else {
        Seq::new(
            n,
            |i: int| JsonView::Object(full_event(entries[i], job.database@, job.collection@)),
        )
    }
}

/// One subscription, as the dispatcher needs it.
#[derive(Debug)]
pub struct Job {
    pub id: String,
    pub url: String,
    pub secret: String,
    pub database: String,
    pub collection: String,
    pub collection_id: u64,
    pub operations: Vec<String>,
    pub invalidated: bool,
}

/// One batch, rendered and ready to send, and the changes it covers.
#[derive(Debug)]
pub struct Delivery {
    pub body: String,
    pub stamps: Vec<Stamp>,
}

/// The stamps are those of the first entries, in order.
pub open spec fn stamps_of(stamps: Seq<Stamp>, entries: Seq<OplogEntry>) -> bool {
    stamps.len() <= entries.len() && forall|i: int|
        0 <= i < stamps.len() ==> (#[trigger] stamps[i]).hlc == entries[i].stamp.hlc
            && stamps[i].node == entries[i].stamp.node && stamps[i].time == entries[i].stamp.time
}

/// The entries at these places.
pub open spec fn picked(entries: Seq<OplogEntry>, places: Seq<usize>) -> Seq<OplogEntry> {
    Seq::new(places.len(), |i: int| entries[places[i] as int])
}

proof fn lemma_taken(
    entries: Seq<OplogEntry>,
    database: Seq<char>,
    collection: Seq<char>,
    used: nat,
    first: bool,
    max: nat,
)
    ensures
        taken(entries, database, collection, used, first, max) <= entries.len(),
    decreases entries.len(),
{
    if entries.len() > 0 {
        let cost = event_bytes(entries[0], database, collection) + (if first {
            0nat
        } else {
            1
        });
        lemma_taken(entries.skip(1), database, collection, used + cost, false, max);
    }
}

/// Choose the events that fit within `max_payload_bytes`, and render them. The
/// candidates are the entries at `places`, in that order.
///
/// Three rules, in order:
///
/// 1. Events are taken in log order and stop at the first one that would not
///    fit. The rest go next pass.
/// 2. If the *first* event does not fit on its own, it is rendered without
///    `fullDocument` and sent alone.
/// 3. That lone event goes out even if it still does not fit. A subscription
///    that refused to send it would never advance past it.
pub fn assemble(
    job: &Job,
    entries: &Vec<OplogEntry>,
    places: &Vec<usize>,
    max_payload_bytes: usize,
) -> (delivery: Delivery)
    requires
        forall|i: int| 0 <= i < places@.len() ==> #[trigger] places@[i] < entries@.len(),
    ensures
        delivery.body@ == json_text(
            envelope_of(
                job.id@,
                events_of(*job, picked(entries@, places@), max_payload_bytes),
            ),
        ),
        delivery.stamps@.len() == covered(
            *job,
            picked(entries@, places@),
            max_payload_bytes,
        ),
        stamps_of(delivery.stamps@, picked(entries@, places@)),
{
    let ghost all = picked(entries@, places@);
    let ghost batch = batch_of(all);
    let ghost db = job.database@;
    let ghost coll = job.collection@;
    let ghost max = max_payload_bytes as nat;
    let mut events: Vec<Json> = Vec::new();
    let mut stamps: Vec<Stamp> = Vec::new();
    // Accumulated rather than re-serialising the whole batch per candidate.
    // Compact JSON adds exactly the event's own text plus a comma once there is
    // something to separate it from.
    let mut used: usize = envelope_overhead(job.id.as_str());
    let mut i: usize = 0;
    let mut full = false;
    assert(batch.skip(0) =~= batch);
    while i < places.len() && i < BATCH && !full
        invariant
            i <= places.len(),
            i <= BATCH,
            forall|k: int| 0 <= k < places@.len() ==> #[trigger] places@[k] < entries@.len(),
            all == picked(entries@, places@),
            batch == batch_of(all),
            db == job.database@,
            coll == job.collection@,
            max == max_payload_bytes as nat,
            i <= batch.len(),
            events@.len() == i,
            stamps@.len() == i,
            stamps_of(stamps@, all),
            forall|k: int|
                0 <= k < i ==> valid((#[trigger] events@[k])@) && events@[k]@
                    == JsonView::Object(full_event(all[k], db, coll)),
            !full ==> fitting(*job, all, max_payload_bytes) == i + taken(
                batch.skip(i as int),
                db,
                coll,
                used as nat,
                i == 0,
                max,
            ),
            full ==> i < batch.len() && fitting(*job, all, max_payload_bytes) == i,
            i == 0 ==> used == overhead(job.id@),
        decreases places.len() - i, (if full { 0int } else { 1 }),
    {
        let entry = &entries[places[i]];
        assert(all[i as int] == *entry);
        assert(batch.skip(i as int)[0] == *entry);
        let candidate = render(entry, job.database.as_str(), job.collection.as_str());
        let text = to_text(&candidate);
        let bytes: usize = byte_len(text.as_str());
        let comma: usize = if i == 0 {
            0
        } else {
            1
        };
        if used <= max_payload_bytes && bytes <= max_payload_bytes - used && comma
            <= max_payload_bytes - used - bytes {
            used = used + bytes + comma;
            let ghost before = events@;
            events.push(candidate);
            stamps.push(entry.stamp.duplicate());
            assert(batch.skip(i as int).skip(1) =~= batch.skip(i + 1));
            i = i + 1;
        } else {
            full = true;
        }
    }
    proof {
        if !full {
            assert(batch.skip(i as int).len() == 0);
        }
        assert(fitting(*job, all, max_payload_bytes) == i);
    }
    if i == 0 && places.len() > 0 {
        // Too large on its own, so the document comes off rather than the event
        // being skipped.
        let entry = &entries[places[0]];
        assert(all[0] == *entry);
        let stripped = render_stripped(entry, job.database.as_str(), job.collection.as_str());
        events.push(stripped);
        stamps.push(entry.stamp.duplicate());
        assert(json_items(events@) =~= events_of(*job, all, max_payload_bytes));
    } else {
        assert(json_items(events@) =~= events_of(*job, all, max_payload_bytes));
    }
    Delivery { body: envelope(job.id.as_str(), events), stamps }
}

/// The bytes of the first `n` events' texts, and of the commas between them.
pub open spec fn events_bytes(events: Seq<JsonView>, n: nat) -> nat
    decreases n,
{
    if n == 0 {
        0
    } else {
        events_bytes(events, (n - 1) as nat) + utf8_len(json_text(events[n - 1])) + (if n == 1 {
            0nat
        } else {
            1
        })
    }
}

proof fn lemma_comma()
    ensures
        utf8_len(","@) == 1,
{
    reveal_strlit(",");
    vstd::utf8::is_ascii_chars_encode_utf8(","@);
}

proof fn lemma_joined_bytes(events: Seq<JsonView>, n: nat)
    requires
        n <= events.len(),
    ensures
        item_texts(events.take(n as int)).len() == n,
        utf8_len(joined(item_texts(events.take(n as int)), ","@)) == events_bytes(events, n),
    decreases n,
{
    let texts = item_texts(events.take(n as int));
    if n == 0 {
        assert(joined(texts, ","@) =~= Seq::<char>::empty());
    } else {
        lemma_joined_bytes(events, (n - 1) as nat);
        assert(events.take(n as int).drop_last() =~= events.take(n - 1));
        let before = item_texts(events.take(n - 1));
        assert(texts == before.push(json_text(events[n - 1])));
        assert(texts.drop_last() =~= before);
        if n > 1 {
            lemma_comma();
            lemma_utf8_len_concat(joined(before, ","@), ","@);
            lemma_utf8_len_concat(joined(before, ","@) + ","@, texts.last());
        } else {
            assert(joined(before, ","@).len() == 0);
        }
    }
}

/// An envelope's text costs its overhead, its events' texts, and the commas
/// between them.
proof fn lemma_envelope_bytes(subscription: Seq<char>, events: Seq<JsonView>)
    ensures
        utf8_len(json_text(envelope_of(subscription, events))) == overhead(subscription)
            + events_bytes(events, events.len()),
{
    lemma_envelope_text(subscription, events);
    lemma_envelope_text(subscription, Seq::empty());
    lemma_joined_bytes(events, events.len());
    assert(events.take(events.len() as int) =~= events);
    let empty = joined(item_texts(Seq::<JsonView>::empty()), ","@);
    assert(empty =~= Seq::<char>::empty());
}

/// What an envelope's text is made of, around its events' texts.
spec fn envelope_head(subscription: Seq<char>) -> Seq<char> {
    "{"@ + (string_text("subscription"@) + ":"@ + string_text(subscription)) + ","@ + (string_text(
        "events"@,
    ) + ":"@ + "["@)
}

proof fn lemma_envelope_text(subscription: Seq<char>, events: Seq<JsonView>)
    ensures
        utf8_len(json_text(envelope_of(subscription, events))) == utf8_len(
            envelope_head(subscription),
        ) + utf8_len(joined(item_texts(events), ","@)) + utf8_len("]}"@),
{
    let members = envelope_of(subscription, events)->Object_0;
    let inner = joined(item_texts(events), ","@);
    let first = string_text("subscription"@) + ":"@ + string_text(subscription);
    let second = string_text("events"@) + ":"@ + json_text(JsonView::Array(events));
    let texts = object_texts(members);
    assert(members.drop_last() =~= seq![members[0]]);
    assert(seq![members[0]].drop_last() =~= Seq::<(Seq<char>, JsonView)>::empty());
    assert(json_text(JsonView::String(subscription)) == string_text(subscription));
    assert(seq![members[0]].last() == members[0]);
    assert(object_texts(seq![members[0]]) == object_texts(
        Seq::<(Seq<char>, JsonView)>::empty(),
    ).push(first));
    assert(object_texts(seq![members[0]]) =~= seq![first]);
    assert(texts == seq![first].push(second));
    assert(texts =~= seq![first, second]);
    assert(texts.drop_last() =~= seq![first]);
    assert(joined(seq![first], ","@) == first);
    assert(joined(texts, ","@) == first + ","@ + second);
    reveal_strlit("]}");
    reveal_strlit("]");
    reveal_strlit("}");
    assert("]}"@ =~= "]"@ + "}"@);
    let head = envelope_head(subscription);
    assert(json_text(envelope_of(subscription, events)) =~= head + inner + "]}"@);
    lemma_utf8_len_concat(head, inner);
    lemma_utf8_len_concat(head + inner, "]}"@);
}

/// An envelope without events costs twenty-nine bytes and its subscription's id as
/// a JSON string.
pub proof fn the_overhead_is_what_surrounds_the_id(subscription: Seq<char>)
    ensures
        overhead(subscription) == 29 + utf8_len(string_text(subscription)),
{
    lemma_envelope_text(subscription, Seq::empty());
    assert(joined(item_texts(Seq::<JsonView>::empty()), ","@) =~= Seq::<char>::empty());
    reveal_strlit("{");
    reveal_strlit("subscription");
    reveal_strlit(":");
    reveal_strlit(",");
    reveal_strlit("events");
    reveal_strlit("[");
    reveal_strlit("]}");
    reveal_strlit("\"");
    assert forall|i: int| 0 <= i < "subscription"@.len() implies char_text(
        #[trigger] "subscription"@[i],
    ) == seq!["subscription"@[i]] by {}
    plain_text_is_not_escaped("subscription"@);
    assert forall|i: int| 0 <= i < "events"@.len() implies char_text(#[trigger] "events"@[i])
        == seq!["events"@[i]] by {}
    plain_text_is_not_escaped("events"@);
    let before = "{"@ + string_text("subscription"@) + ":"@;
    let after = ","@ + string_text("events"@) + ":"@ + "["@;
    let id = string_text(subscription);
    assert(envelope_head(subscription) =~= before + id + after);
    lemma_utf8_len_concat(before, id);
    lemma_utf8_len_concat(before + id, after);
    vstd::utf8::is_ascii_chars_encode_utf8(before);
    vstd::utf8::is_ascii_chars_encode_utf8(after);
    vstd::utf8::is_ascii_chars_encode_utf8("]}"@);
}

/// A body that carries a whole event is within the payload cap: only an event
/// that alone is over it is sent beyond.
pub proof fn whole_events_stay_within_the_cap(
    job: Job,
    entries: Seq<OplogEntry>,
    max_payload_bytes: usize,
)
    requires
        fitting(job, entries, max_payload_bytes) > 0,
    ensures
        utf8_len(
            json_text(envelope_of(job.id@, events_of(job, entries, max_payload_bytes))),
        ) <= max_payload_bytes,
{
    let n = fitting(job, entries, max_payload_bytes);
    let events = events_of(job, entries, max_payload_bytes);
    let batch = batch_of(entries);
    lemma_taken(
        batch,
        job.database@,
        job.collection@,
        overhead(job.id@),
        true,
        max_payload_bytes as nat,
    );
    lemma_envelope_bytes(job.id@, events);
    assert(batch.skip(0) =~= batch);
    lemma_taken_bytes(job, entries, max_payload_bytes, 0);
}

proof fn lemma_taken_bytes(
    job: Job,
    entries: Seq<OplogEntry>,
    max_payload_bytes: usize,
    k: nat,
)
    requires
        fitting(job, entries, max_payload_bytes) > 0,
        k <= fitting(job, entries, max_payload_bytes) <= batch_of(entries).len(),
        k > 0 ==> overhead(job.id@) + events_bytes(
            events_of(job, entries, max_payload_bytes),
            k,
        ) <= max_payload_bytes,
        fitting(job, entries, max_payload_bytes) == k + taken(
            batch_of(entries).skip(k as int),
            job.database@,
            job.collection@,
            overhead(job.id@) + events_bytes(events_of(job, entries, max_payload_bytes), k),
            k == 0,
            max_payload_bytes as nat,
        ),
    ensures
        overhead(job.id@) + events_bytes(
            events_of(job, entries, max_payload_bytes),
            fitting(job, entries, max_payload_bytes),
        ) <= max_payload_bytes,
    decreases fitting(job, entries, max_payload_bytes) - k,
{
    let n = fitting(job, entries, max_payload_bytes);
    let batch = batch_of(entries);
    let events = events_of(job, entries, max_payload_bytes);
    if k < n {
        assert(batch.skip(k as int)[0] == batch[k as int]);
        assert(batch[k as int] == entries[k as int]);
        assert(events[k as int] == JsonView::Object(
            full_event(entries[k as int], job.database@, job.collection@),
        ));
        assert(events_bytes(events, (k + 1) as nat) == events_bytes(events, k) + event_bytes(
            entries[k as int],
            job.database@,
            job.collection@,
        ) + (if k == 0 {
            0nat
        } else {
            1
        }));
        assert(batch.skip(k as int).skip(1) =~= batch.skip(k as int + 1));
        lemma_taken_bytes(job, entries, max_payload_bytes, (k + 1) as nat);
    }
}

/// No event is dropped and none is moved: what one body covers is the first of
/// the entries, at least one where there are any, and what it leaves is the
/// rest of them.
pub proof fn every_body_advances(
    job: Job,
    entries: Seq<OplogEntry>,
    max_payload_bytes: usize,
)
    requires
        entries.len() > 0,
    ensures
        1 <= covered(job, entries, max_payload_bytes) <= entries.len(),
        covered(job, entries, max_payload_bytes) <= BATCH,
        events_of(job, entries, max_payload_bytes).len() == covered(
            job,
            entries,
            max_payload_bytes,
        ),
{
    lemma_taken(
        batch_of(entries),
        job.database@,
        job.collection@,
        overhead(job.id@),
        true,
        max_payload_bytes as nat,
    );
}

/// The events of the first `n` entries, each whole.
pub open spec fn whole_events(job: Job, entries: Seq<OplogEntry>, n: nat) -> Seq<JsonView> {
    Seq::new(n, |i: int| JsonView::Object(full_event(entries[i], job.database@, job.collection@)))
}

/// A body takes exactly what fits: as many events as a body may hold without going
/// over the payload cap, and sixty-four at the most.
pub proof fn a_body_takes_exactly_what_fits(
    job: Job,
    entries: Seq<OplogEntry>,
    max_payload_bytes: usize,
    k: nat,
)
    requires
        1 <= k <= entries.len(),
        k <= 64,
    ensures
        k <= fitting(job, entries, max_payload_bytes) <==> utf8_len(
            json_text(envelope_of(job.id@, whole_events(job, entries, k))),
        ) <= max_payload_bytes,
{
    let batch = batch_of(entries);
    let all = whole_events(job, batch, batch.len());
    let events = whole_events(job, entries, k);
    lemma_envelope_bytes(job.id@, events);
    assert(batch.skip(0) =~= batch);
    lemma_fits(job, batch, max_payload_bytes, 0, k);
    lemma_same_bytes(events, all, k);
}

proof fn lemma_same_bytes(a: Seq<JsonView>, b: Seq<JsonView>, n: nat)
    requires
        n <= a.len(),
        n <= b.len(),
        forall|i: int| 0 <= i < n ==> #[trigger] a[i] == b[i],
    ensures
        events_bytes(a, n) == events_bytes(b, n),
    decreases n,
{
    if n > 0 {
        lemma_same_bytes(a, b, (n - 1) as nat);
        assert(a[n - 1] == b[n - 1]);
    }
}

proof fn lemma_bytes_grow(events: Seq<JsonView>, n: nat, m: nat)
    requires
        n <= m,
    ensures
        events_bytes(events, n) <= events_bytes(events, m),
    decreases m - n,
{
    if n < m {
        lemma_bytes_grow(events, n, (m - 1) as nat);
    }
}

proof fn lemma_fits(job: Job, batch: Seq<OplogEntry>, max: usize, j: nat, k: nat)
    requires
        j <= k <= batch.len(),
    ensures
        ({
            let all = whole_events(job, batch, batch.len());
            taken(
                batch.skip(j as int),
                job.database@,
                job.collection@,
                overhead(job.id@) + events_bytes(all, j),
                j == 0,
                max as nat,
            ) >= k - j <==> k == j || overhead(job.id@) + events_bytes(all, k) <= max
        }),
    decreases k - j,
{
    let all = whole_events(job, batch, batch.len());
    if j < k {
        lemma_fits(job, batch, max, j + 1, k);
        lemma_bytes_grow(all, j + 1, k);
        assert(batch.skip(j as int)[0] == batch[j as int]);
        assert(batch.skip(j as int).skip(1) =~= batch.skip(j as int + 1));
        assert(all[j as int] == JsonView::Object(
            full_event(batch[j as int], job.database@, job.collection@),
        ));
        assert(events_bytes(all, j + 1) == events_bytes(all, j) + event_bytes(
            batch[j as int],
            job.database@,
            job.collection@,
        ) + (if j == 0 {
            0nat
        } else {
            1
        }));
    }
}

/// What is signed of a delivery: the timestamp is inside, so a captured delivery
/// cannot be replayed later with a fresh one.
pub open spec fn signed_bytes(timestamp_ms: u64, body: Seq<char>) -> Seq<u8> {
    encode_utf8(decimal(timestamp_ms as nat) + "."@ + body)
}

/// `HMAC-SHA256(secret, timestamp || "." || body)`, hex.
pub fn sign(secret: &str, timestamp_ms: u64, body: &str) -> (signature: String)
    ensures
        signature@ == hex_text(
            hmac_sha256(encode_utf8(secret@), signed_bytes(timestamp_ms, body@)),
        ),
        signature@.len() == 64,
{
    let mut message = String::new();
    push_decimal(&mut message, timestamp_ms);
    message.append(".");
    message.append(body);
    assert(message@ =~= decimal(timestamp_ms as nat) + "."@ + body@);
    let code = authenticate(secret.as_bytes(), message.as_str().as_bytes());
    let mut signature = String::new();
    push_hex(&mut signature, &code);
    assert(signature@ =~= hex_text(code@));
    signature
}

/// A delivery's request: what its headers and its body say.
#[derive(Debug)]
pub struct DeliveryRequest {
    pub url: String,
    /// `x-kimmy-event-id`: the id of the first event.
    pub event_id: String,
    /// `x-kimmy-timestamp`.
    pub timestamp: String,
    /// `x-kimmy-signature`.
    pub signature: String,
    pub body: String,
}

/// The request of a delivery sent at `timestamp_ms`: signed at the moment of
/// sending, so the timestamp a receiver checks against replay is the send time.
pub fn request(job: &Job, delivery: &Delivery, timestamp_ms: u64) -> (r: DeliveryRequest)
    ensures
        r.url@ == job.url@,
        r.event_id@ == (if delivery.stamps@.len() > 0 {
            id_of(delivery.stamps@[0])
        } else {
            Seq::empty()
        }),
        r.timestamp@ == decimal(timestamp_ms as nat),
        r.signature@ == hex_text(
            hmac_sha256(
                encode_utf8(job.secret@),
                signed_bytes(timestamp_ms, delivery.body@),
            ),
        ),
        r.body@ == delivery.body@,
{
    DeliveryRequest {
        url: job.url.clone(),
        event_id: if delivery.stamps.len() > 0 {
            stamp_id(&delivery.stamps[0])
        } else {
            String::new()
        },
        timestamp: crate::text::decimal_text(timestamp_ms),
        signature: sign(job.secret.as_str(), timestamp_ms, delivery.body.as_str()),
        body: delivery.body.clone(),
    }
}

/// Whether an endpoint took a delivery, from the status it answered with and
/// how that is written.
pub fn delivered(status: u16, text: &str) -> (outcome: Result<(), String>)
    ensures
        outcome is Ok <==> 200 <= status <= 299,
        outcome matches Err(e) ==> e@ == "endpoint returned "@ + text@,
{
    if 200 <= status && status <= 299 {
        Ok(())
    } else {
        let mut e = "endpoint returned ".to_owned();
        e.append(text);
        Err(e)
    }
}

/// The texts among a list of values, in order.
pub open spec fn texts_in(items: Seq<BsonView>) -> Seq<Seq<char>>
    decreases items.len(),
{
    if items.len() == 0 {
        Seq::empty()
    } else {
        let before = texts_in(items.drop_last());
        match items.last() {
            BsonView::String(s) => before.push(s),
            _ => before,
        }
    }
}

/// The operations a subscription asks for: none of them named means all.
pub open spec fn operations_in(record: Seq<(Seq<char>, BsonView)>) -> Seq<Seq<char>> {
    match lookup(record, "operations"@) {
        Some(BsonView::Array(items)) => texts_in(items),
        _ => Seq::empty(),
    }
}

/// Whether a registry record is a subscription: it names itself, its endpoint,
/// its secret, its database and its collection.
pub open spec fn is_subscription(record: Seq<(Seq<char>, BsonView)>) -> bool {
    &&& text_under(record, "_id"@) is Some
    &&& text_under(record, "url"@) is Some
    &&& text_under(record, "secret"@) is Some
    &&& text_under(record, "database"@) is Some
    &&& text_under(record, "collection"@) is Some
}

/// Whether `job` is the subscription that a record holds.
pub open spec fn is_job_of(
    job: Job,
    record: Seq<(Seq<char>, BsonView)>,
    collection_id: u64,
) -> bool {
    &&& text_under(record, "_id"@) == Some(job.id@)
    &&& text_under(record, "url"@) == Some(job.url@)
    &&& text_under(record, "secret"@) == Some(job.secret@)
    &&& text_under(record, "database"@) == Some(job.database@)
    &&& text_under(record, "collection"@) == Some(job.collection@)
    &&& job.collection_id == collection_id
    &&& member_texts(job.operations@) == operations_in(record)
    &&& job.invalidated == (text_under(record, "state"@) == Some("invalidated"@))
}

/// Where the subscriptions stand among the first `n` registry records.
pub open spec fn subscription_places(records: Seq<Document>, n: nat) -> Seq<int>
    decreases n,
{
    if n == 0 {
        Seq::empty()
    } else {
        let before = subscription_places(records, (n - 1) as nat);
        if is_subscription(bson_members(records[n - 1]@)) {
            before.push(n - 1)
        } else {
            before
        }
    }
}

fn read_operations(record: &Document) -> (operations: Vec<String>)
    ensures
        member_texts(operations@) == operations_in(bson_members(record@)),
{
    let mut operations: Vec<String> = Vec::new();
    assert(member_texts(operations@) =~= Seq::<Seq<char>>::empty());
    match get(record, "operations") {
        Some(value) => match value {
            Bson::Array(items) => {
                let ghost views = crate::json::bson_items(items@);
                proof {
                    bson_view(*value);
                }
                let mut i: usize = 0;
                assert(views.take(0) =~= Seq::<BsonView>::empty());
                while i < items.len()
                    invariant
                        i <= items.len(),
                        views == crate::json::bson_items(items@),
                        member_texts(operations@) == texts_in(views.take(i as int)),
                    decreases items.len() - i,
                {
                    proof {
                        assert(views.take(i + 1).drop_last() =~= views.take(i as int));
                        assert(views.take(i + 1).last() == items@[i as int]@);
                    }
                    match &items[i] {
                        Bson::String(name) => {
                            let ghost before = operations@;
                            operations.push(name.clone());
                            assert(member_texts(operations@) =~= member_texts(before).push(name@));
                        },
                        _ => {},
                    }
                    i = i + 1;
                }
                assert(views.take(i as int) =~= views);
            },
            _ => {},
        },
        None => {},
    }
    operations
}

/// The subscription a registry record holds.
fn read_job(record: &Document, collection_id: u64) -> (job: Option<Job>)
    ensures
        job is Some <==> is_subscription(bson_members(record@)),
        job matches Some(j) ==> is_job_of(j, bson_members(record@), collection_id),
{
    let id = match get_str(record, "_id") {
        Some(id) => id,
        None => {
            return None;
        },
    };
    let url = match get_str(record, "url") {
        Some(url) => url,
        None => {
            return None;
        },
    };
    let secret = match get_str(record, "secret") {
        Some(secret) => secret,
        None => {
            return None;
        },
    };
    let database = match get_str(record, "database") {
        Some(database) => database,
        None => {
            return None;
        },
    };
    let collection = match get_str(record, "collection") {
        Some(collection) => collection,
        None => {
            return None;
        },
    };
    let invalidated = match get_str(record, "state") {
        Some(state) => *state.as_str() == *"invalidated",
        None => false,
    };
    Some(
        Job {
            id: id.clone(),
            url: url.clone(),
            secret: secret.clone(),
            database: database.clone(),
            collection: collection.clone(),
            collection_id,
            operations: read_operations(record),
            invalidated,
        },
    )
}

/// Whether `job` is the subscription that the record in this place holds.
pub open spec fn is_job_at(
    job: Job,
    records: Seq<Document>,
    collection_ids: Seq<u64>,
    place: int,
) -> bool {
    0 <= place < records.len() && is_job_of(
        job,
        bson_members(records[place]@),
        collection_ids[place],
    )
}

/// The subscriptions the registry holds, in its order, given with each record
/// the id that its collection's name gives. A record that is none is passed
/// over.
pub fn load_jobs(records: &Vec<Document>, collection_ids: &Vec<u64>) -> (jobs: Vec<Job>)
    requires
        records@.len() == collection_ids@.len(),
    ensures
        jobs@.len() == subscription_places(records@, records@.len()).len(),
        forall|k: int|
            0 <= k < jobs@.len() ==> is_job_at(
                #[trigger] jobs@[k],
                records@,
                collection_ids@,
                subscription_places(records@, records@.len())[k],
            ),
{
    let mut jobs: Vec<Job> = Vec::new();
    let mut i: usize = 0;
    while i < records.len()
        invariant
            i <= records.len(),
            records@.len() == collection_ids@.len(),
            jobs@.len() == subscription_places(records@, i as nat).len(),
            forall|k: int|
                0 <= k < jobs@.len() ==> is_job_at(
                    #[trigger] jobs@[k],
                    records@,
                    collection_ids@,
                    subscription_places(records@, i as nat)[k],
                ),
        decreases records.len() - i,
    {
        let ghost before = jobs@;
        let ghost places = subscription_places(records@, i as nat);
        match read_job(&records[i], collection_ids[i]) {
            Some(job) => {
                jobs.push(job);
                assert(is_job_at(job, records@, collection_ids@, i as int));
                assert(subscription_places(records@, (i + 1) as nat) == places.push(i as int));
            },
            None => {
                assert(subscription_places(records@, (i + 1) as nat) == places);
            },
        }
        i = i + 1;
    }
    jobs
}

/// The record of a subscription that was stopped, and why.
pub fn invalidate(record: &mut Document, reason: &str)
    ensures
        bson_members(final(record)@) == put(
            put(bson_members(old(record)@), "state"@, BsonView::String("invalidated"@)),
            "invalidReason"@,
            BsonView::String(reason@),
        ),
{
    put_bson(record, "state", Bson::String("invalidated".to_owned()));
    put_bson(record, "invalidReason", Bson::String(reason.to_owned()));
}

/// Why a subscription whose history was collected is stopped.
pub const COLLECTED_REASON: &'static str =
    "delivery fell behind storage.oplog_retention_secs; the events it had not delivered have been collected";

/// What was read for one subscription.
pub struct Facts {
    /// The union of every node's progress.
    pub progress: VersionVector,
    /// From where the log must be read; none where the progress covers all this
    /// node holds.
    pub from: Option<Hlc>,
    /// How far the log has been collected, where that could be read.
    pub collected_through: Option<Hlc>,
    /// The log's entries from there on, where they could be read.
    pub scanned: Option<Vec<OplogEntry>>,
}

/// What a pass does about one subscription.
pub enum Verdict {
    /// Another node's.
    NotOwner,
    /// Stopped before.
    Invalidated,
    /// Nothing to read.
    CaughtUp,
    /// Waiting after a failed delivery, this far behind.
    BackingOff { behind_ms: u64 },
    /// The history it needs is gone: to be stopped.
    Collected,
    /// The log could not be read; the next pass will try again.
    Unreadable,
    /// None of the entries read was its. Its position is written forward where
    /// it has grown old.
    Idle { advance: Option<VersionVector> },
    /// A batch is to be delivered, its oldest event this far behind.
    Deliver { behind_ms: u64, delivery: Delivery },
}

/// How long ago `wall_ms` was.
pub open spec fn behind(now_ms: u64, wall_ms: u64) -> u64 {
    if now_ms > wall_ms {
        (now_ms - wall_ms) as u64
    } else {
        0
    }
}

/// Whether an entry is a subscription's and was not delivered to it yet.
pub open spec fn is_due(entry: OplogEntry, job: Job, progress: VersionVector) -> bool {
    is_wanted(entry, job.collection_id, member_texts(job.operations@)) && progress.at(
        entry.stamp.node@,
    ).before(entry.stamp.hlc)
}

/// The first `n` entries that are due.
pub open spec fn due(
    entries: Seq<OplogEntry>,
    job: Job,
    progress: VersionVector,
    n: nat,
) -> Seq<OplogEntry>
    decreases n,
{
    if n == 0 {
        Seq::empty()
    } else {
        let before = due(entries, job, progress, (n - 1) as nat);
        if is_due(entries[n - 1], job, progress) {
            before.push(entries[n - 1])
        } else {
            before
        }
    }
}

/// The newest change of `node` once the first `n` entries were noted.
pub open spec fn noted_through(
    start: Hlc,
    entries: Seq<OplogEntry>,
    node: Seq<char>,
    n: nat,
) -> Hlc
    decreases n,
{
    if n == 0 {
        start
    } else {
        let before = noted_through(start, entries, node, (n - 1) as nat);
        if entries[n - 1].stamp.node@ == node {
            before.later(entries[n - 1].stamp.hlc)
        } else {
            before
        }
    }
}

/// Whether `v` is what a pass at `now_ms` does about a subscription.
pub open spec fn judged(
    job: Job,
    facts: Facts,
    owner: bool,
    ready: bool,
    limits: Limits,
    now_ms: u64,
    v: Verdict,
) -> bool {
    if !owner {
        v is NotOwner
    } else if job.invalidated {
        v is Invalidated
    } else if facts.from is None {
        v is CaughtUp
    } else if !ready {
        v == (Verdict::BackingOff { behind_ms: behind(now_ms, facts.from->0.wall_ms) })
    } else if facts.collected_through matches Some(horizon) && hlc_zero().before(horizon)
        && facts.from->0.before(horizon) {
        v is Collected
    } else if facts.scanned is None {
        v is Unreadable
    } else {
        let entries = facts.scanned->0@;
        let batch = batch_of(due(entries, job, facts.progress, entries.len()));
        if batch.len() == 0 {
            v is Idle && if behind(now_ms, facts.from->0.wall_ms) >= limits.progress_heartbeat_ms {
                v->advance is Some && forall|node: Seq<char>| #[trigger]
                    v->advance->0.at(node) == noted_through(
                        facts.progress.at(node),
                        entries,
                        node,
                        entries.len(),
                    )
            } else {
                v->advance is None
            }
        } else {
            &&& v is Deliver
            &&& v->Deliver_behind_ms == behind(now_ms, batch[0].stamp.hlc.wall_ms)
            &&& v->delivery.body@ == json_text(
                envelope_of(job.id@, events_of(job, batch, limits.max_payload_bytes)),
            )
            &&& v->delivery.stamps@.len() == covered(job, batch, limits.max_payload_bytes)
            &&& stamps_of(v->delivery.stamps@, batch)
        }
    }
}

/// Where the due entries stand, no more than a batch of them.
fn due_places(entries: &Vec<OplogEntry>, job: &Job, progress: &VersionVector) -> (places: Vec<
    usize,
>)
    ensures
        forall|i: int| 0 <= i < places@.len() ==> #[trigger] places@[i] < entries@.len(),
        picked(entries@, places@) == batch_of(
            due(entries@, *job, *progress, entries@.len()),
        ),
{
    let mut places: Vec<usize> = Vec::new();
    let mut i: usize = 0;
    assert(picked(entries@, places@) =~= Seq::<OplogEntry>::empty());
    while i < entries.len() && places.len() < BATCH
        invariant
            i <= entries.len(),
            places@.len() <= BATCH,
            forall|k: int| 0 <= k < places@.len() ==> #[trigger] places@[k] < entries@.len(),
            picked(entries@, places@) == due(entries@, *job, *progress, i as nat),
        decreases entries.len() - i,
    {
        let entry = &entries[i];
        if wanted(entry, job.collection_id, &job.operations) && progress.get(
            entry.stamp.node.as_str(),
        ).is_before(&entry.stamp.hlc) {
            let ghost before = places@;
            places.push(i);
            assert(picked(entries@, places@) =~= picked(entries@, before).push(
                entries@[i as int],
            ));
        }
        i = i + 1;
    }
    proof {
        let all = due(entries@, *job, *progress, entries@.len());
        lemma_due_grows(entries@, *job, *progress, i as nat, entries@.len());
        assert(picked(entries@, places@).len() == places@.len());
        assert(picked(entries@, places@) =~= batch_of(all));
    }
    places
}

proof fn lemma_due_grows(
    entries: Seq<OplogEntry>,
    job: Job,
    progress: VersionVector,
    n: nat,
    m: nat,
)
    requires
        n <= m,
    ensures
        due(entries, job, progress, n).len() <= due(entries, job, progress, m).len(),
        due(entries, job, progress, m).take(due(entries, job, progress, n).len() as int) =~= due(
            entries,
            job,
            progress,
            n,
        ),
    decreases m - n,
{
    if n < m {
        lemma_due_grows(entries, job, progress, n, (m - 1) as nat);
    }
}

/// What a pass at `now_ms` does about one subscription, given what was read for
/// it.
pub fn judge(
    job: &Job,
    facts: &Facts,
    owner: bool,
    ready: bool,
    limits: &Limits,
    now_ms: u64,
) -> (v: Verdict)
    ensures
        judged(*job, *facts, owner, ready, *limits, now_ms, v),
{
    if !owner {
        return Verdict::NotOwner;
    }
    if job.invalidated {
        return Verdict::Invalidated;
    }
    let from = match facts.from {
        Some(from) => from,
        None => {
            return Verdict::CaughtUp;
        },
    };
    let age: u64 = if now_ms > from.wall_ms {
        now_ms - from.wall_ms
    } else {
        0
    };
    if !ready {
        // A subscription is only in backoff because a delivery carrying events
        // just failed. The resume point's age is the honest approximation
        // available without reading the log.
        return Verdict::BackingOff { behind_ms: age };
    }
    match facts.collected_through {
        Some(horizon) => {
            if Hlc::zero().is_before(&horizon) && from.is_before(&horizon) {
                return Verdict::Collected;
            }
        },
        None => {},
    }
    let scanned = match &facts.scanned {
        Some(scanned) => scanned,
        None => {
            return Verdict::Unreadable;
        },
    };
    let places = due_places(scanned, job, &facts.progress);
    let ghost batch = picked(scanned@, places@);
    if places.len() == 0 {
        assert(batch.len() == 0);
        // Nothing here was this subscription's. Progress still advances over
        // the entries, on a heartbeat: recording it is itself a write, and a
        // position that never moves is one the retention horizon overtakes.
        let mut advance: Option<VersionVector> = None;
        if age >= limits.progress_heartbeat_ms {
            let mut progress = facts.progress.duplicate();
            note_entries(&mut progress, scanned);
            advance = Some(progress);
        }
        return Verdict::Idle { advance };
    }
    assert(batch.len() > 0);
    let oldest: u64 = scanned[places[0]].stamp.hlc.wall_ms;
    assert(batch[0].stamp.hlc.wall_ms == oldest);
    let behind_ms: u64 = if now_ms > oldest {
        now_ms - oldest
    } else {
        0
    };
    let delivery = assemble(job, scanned, &places, limits.max_payload_bytes);
    Verdict::Deliver { behind_ms, delivery }
}

/// Note every entry as seen.
fn note_entries(progress: &mut VersionVector, entries: &Vec<OplogEntry>)
    ensures
        forall|node: Seq<char>| #[trigger]
            final(progress).at(node) == noted_through(
                old(progress).at(node),
                entries@,
                node,
                entries@.len(),
            ),
{
    let mut i: usize = 0;
    while i < entries.len()
        invariant
            i <= entries.len(),
            forall|node: Seq<char>| #[trigger]
                progress.at(node) == noted_through(
                    old(progress).at(node),
                    entries@,
                    node,
                    i as nat,
                ),
        decreases entries.len() - i,
    {
        let ghost before = *progress;
        progress.observe(entries[i].stamp.node.as_str(), entries[i].stamp.hlc);
        assert forall|node: Seq<char>| #[trigger] progress.at(node) == noted_through(
            old(progress).at(node),
            entries@,
            node,
            (i + 1) as nat,
        ) by {
            assert(before.at(node) == noted_through(
                old(progress).at(node),
                entries@,
                node,
                i as nat,
            ));
        }
        i = i + 1;
    }
}

/// The ids of the subscriptions.
pub open spec fn job_ids(jobs: Seq<Job>) -> Seq<Seq<char>> {
    Seq::new(jobs.len(), |i: int| jobs[i].id@)
}

/// What one pass does about every subscription of the registry, in its order.
/// `now_ms` is the time of day, and `clock_ms` the clock backoff is kept by.
///
/// A subscription that is gone is forgotten by the backoff first. Nothing else
/// about it changes while a pass is planned.
pub fn plan_pass(
    jobs: &Vec<Job>,
    facts: &Vec<Facts>,
    me: &str,
    members: &Vec<String>,
    backoff: &mut Backoff,
    limits: &Limits,
    now_ms: u64,
    clock_ms: u64,
) -> (verdicts: Vec<Verdict>)
    requires
        jobs@.len() == facts@.len(),
        old(backoff).wf(),
    ensures
        final(backoff).wf(),
        forall|id: Seq<char>| #[trigger]
            final(backoff).state(id) == (if job_ids(jobs@).contains(id) {
                old(backoff).state(id)
            } else {
                None
            }),
        verdicts@.len() == jobs@.len(),
        forall|i: int|
            0 <= i < jobs@.len() ==> judged(
                jobs@[i],
                facts@[i],
                is_owner(jobs@[i].id@, me@, member_texts(members@)),
                old(backoff).is_ready(jobs@[i].id@, clock_ms),
                *limits,
                now_ms,
                #[trigger] verdicts@[i],
            ),
{
    let mut live: Vec<String> = Vec::new();
    let mut i: usize = 0;
    while i < jobs.len()
        invariant
            i <= jobs.len(),
            live@.len() == i,
            forall|k: int| 0 <= k < i ==> (#[trigger] live@[k])@ == jobs@[k].id@,
        decreases jobs.len() - i,
    {
        live.push(jobs[i].id.clone());
        i = i + 1;
    }
    assert(member_texts(live@) =~= job_ids(jobs@));
    let ghost before = *backoff;
    backoff.prune(&live);
    let mut verdicts: Vec<Verdict> = Vec::new();
    let mut i: usize = 0;
    while i < jobs.len()
        invariant
            i <= jobs.len(),
            jobs@.len() == facts@.len(),
            verdicts@.len() == i,
            forall|id: Seq<char>| #[trigger]
                backoff.state(id) == (if job_ids(jobs@).contains(id) {
                    before.state(id)
                } else {
                    None
                }),
            forall|k: int|
                0 <= k < i ==> judged(
                    jobs@[k],
                    facts@[k],
                    is_owner(jobs@[k].id@, me@, member_texts(members@)),
                    before.is_ready(jobs@[k].id@, clock_ms),
                    *limits,
                    now_ms,
                    #[trigger] verdicts@[k],
                ),
        decreases jobs.len() - i,
    {
        let job = &jobs[i];
        let owner = owns(job.id.as_str(), me, members);
        let ready = backoff.ready(job.id.as_str(), clock_ms);
        proof {
            assert(job_ids(jobs@)[i as int] == job.id@);
            assert(job_ids(jobs@).contains(job.id@));
        }
        verdicts.push(judge(job, &facts[i], owner, ready, limits, now_ms));
        i = i + 1;
    }
    verdicts
}

/// Gauges and counts of one planned pass.
#[derive(Clone, Copy, Debug, PartialEq, Eq, Structural)]
pub struct PassSummary {
    pub outcome: DispatchOutcome,
    /// Subscriptions that are not stopped.
    pub active: u64,
    /// Subscriptions that were stopped before.
    pub invalidated: u64,
    /// The age of the oldest undelivered event, across the subscriptions this
    /// node owns.
    pub backlog_secs: u64,
}

/// Why a pass delivered nothing for a subscription, where it counts as a reason.
pub enum Skip {
    NotOwner,
    BackingOff,
    Collected,
}

/// Whether a verdict skips its subscription for a reason.
pub open spec fn skips(v: Verdict, why: Skip) -> bool {
    match why {
        Skip::NotOwner => v is NotOwner,
        Skip::BackingOff => v is BackingOff,
        Skip::Collected => v is Collected,
    }
}

/// How many of the first `n` verdicts skip their subscription for a reason.
pub open spec fn how_many(verdicts: Seq<Verdict>, why: Skip, n: nat) -> nat
    decreases n,
{
    if n == 0 {
        0
    } else {
        how_many(verdicts, why, (n - 1) as nat) + (if skips(verdicts[n - 1], why) {
            1nat
        } else {
            0
        })
    }
}

/// How many of the first `n` subscriptions were stopped before.
pub open spec fn how_many_stopped(jobs: Seq<Job>, n: nat) -> nat
    decreases n,
{
    if n == 0 {
        0
    } else {
        how_many_stopped(jobs, (n - 1) as nat) + (if jobs[n - 1].invalidated {
            1nat
        } else {
            0
        })
    }
}

/// How far behind a verdict says its subscription is.
pub open spec fn lag(v: Verdict) -> u64 {
    match v {
        Verdict::BackingOff { behind_ms } => behind_ms,
        Verdict::Deliver { behind_ms, delivery } => behind_ms,
        _ => 0,
    }
}

/// The most any of the first `n` subscriptions is behind.
pub open spec fn worst_lag(verdicts: Seq<Verdict>, n: nat) -> u64
    decreases n,
{
    if n == 0 {
        0
    } else {
        let before = worst_lag(verdicts, (n - 1) as nat);
        if before < lag(verdicts[n - 1]) {
            lag(verdicts[n - 1])
        } else {
            before
        }
    }
}

/// The gauges and counts of a planned pass.
pub fn summarize(jobs: &Vec<Job>, verdicts: &Vec<Verdict>) -> (s: PassSummary)
    requires
        jobs@.len() == verdicts@.len(),
    ensures
        s.outcome == (DispatchOutcome {
            delivered: 0,
            failed: 0,
            skipped_not_owner: how_many(verdicts@, Skip::NotOwner, verdicts@.len()) as usize,
            skipped_backoff: how_many(verdicts@, Skip::BackingOff, verdicts@.len()) as usize,
            invalidated: how_many(verdicts@, Skip::Collected, verdicts@.len()) as usize,
        }),
        how_many(verdicts@, Skip::NotOwner, verdicts@.len()) <= verdicts@.len(),
        how_many(verdicts@, Skip::BackingOff, verdicts@.len()) <= verdicts@.len(),
        how_many(verdicts@, Skip::Collected, verdicts@.len()) <= verdicts@.len(),
        s.invalidated == how_many_stopped(jobs@, jobs@.len()),
        s.active == jobs@.len() - how_many_stopped(jobs@, jobs@.len()),
        s.backlog_secs == worst_lag(verdicts@, verdicts@.len()) / 1000,
{
    let mut outcome = DispatchOutcome::default();
    let mut active: u64 = 0;
    let mut invalidated: u64 = 0;
    let mut worst: u64 = 0;
    let mut i: usize = 0;
    while i < jobs.len()
        invariant
            i <= jobs.len(),
            jobs@.len() == verdicts@.len(),
            outcome.delivered == 0,
            outcome.failed == 0,
            outcome.skipped_not_owner == how_many(verdicts@, Skip::NotOwner, i as nat),
            outcome.skipped_backoff == how_many(verdicts@, Skip::BackingOff, i as nat),
            outcome.invalidated == how_many(verdicts@, Skip::Collected, i as nat),
            outcome.skipped_not_owner <= i,
            outcome.skipped_backoff <= i,
            outcome.invalidated <= i,
            invalidated == how_many_stopped(jobs@, i as nat),
            active == i - how_many_stopped(jobs@, i as nat),
            invalidated <= i,
            worst == worst_lag(verdicts@, i as nat),
        decreases jobs.len() - i,
    {
        if jobs[i].invalidated {
            invalidated = invalidated + 1;
        } else {
            active = active + 1;
        }
        let behind_ms: u64 = match &verdicts[i] {
            Verdict::NotOwner => {
                outcome.skipped_not_owner = outcome.skipped_not_owner + 1;
                0
            },
            Verdict::BackingOff { behind_ms } => {
                outcome.skipped_backoff = outcome.skipped_backoff + 1;
                *behind_ms
            },
            Verdict::Collected => {
                outcome.invalidated = outcome.invalidated + 1;
                0
            },
            Verdict::Deliver { behind_ms, delivery } => *behind_ms,
            _ => 0,
        };
        if worst < behind_ms {
            worst = behind_ms;
        }
        i = i + 1;
    }
    PassSummary { outcome, active, invalidated, backlog_secs: worst / 1000 }
}

/// The newest change of `node` once the first `n` stamps were noted.
pub open spec fn delivered_through(
    start: Hlc,
    stamps: Seq<Stamp>,
    node: Seq<char>,
    n: nat,
) -> Hlc
    decreases n,
{
    if n == 0 {
        start
    } else {
        let before = delivered_through(start, stamps, node, (n - 1) as nat);
        if stamps[n - 1].node@ == node {
            before.later(stamps[n - 1].hlc)
        } else {
            before
        }
    }
}

/// Apply the outcome of one delivery.
///
/// Progress moves over what the endpoint accepted, and only then: recording it
/// first would turn a failed delivery into a silently skipped event. A failure
/// leaves it where it was, so the events go out again.
pub fn settle(
    job: &Job,
    delivery: &Delivery,
    succeeded: bool,
    progress: &mut VersionVector,
    backoff: &mut Backoff,
    outcome: &mut DispatchOutcome,
    metrics: &mut Metrics,
    clock_ms: u64,
)
    requires
        old(backoff).wf(),
    ensures
        final(backoff).wf(),
        forall|node: Seq<char>| #[trigger]
            final(progress).at(node) == (if succeeded {
                delivered_through(
                    old(progress).at(node),
                    delivery.stamps@,
                    node,
                    delivery.stamps@.len(),
                )
            } else {
                old(progress).at(node)
            }),
        forall|id: Seq<char>| #[trigger]
            final(backoff).state(id) == (if id != job.id@ {
                old(backoff).state(id)
            } else if succeeded {
                None
            } else {
                Some(failed_again(old(backoff).state(id), clock_ms))
            }),
        *final(outcome) == (if succeeded {
            DispatchOutcome {
                delivered: plus(old(outcome).delivered, delivery.stamps@.len()),
                ..*old(outcome)
            }
        } else {
            DispatchOutcome { failed: plus(old(outcome).failed, 1), ..*old(outcome) }
        }),
        *final(metrics) == (if succeeded {
            Metrics {
                webhook_delivered: old(metrics).webhook_delivered.wrapping_add(1),
                webhook_events: old(metrics).webhook_events.wrapping_add(
                    delivery.stamps@.len() as u64,
                ),
                ..*old(metrics)
            }
        } else {
            Metrics {
                webhook_failed: old(metrics).webhook_failed.wrapping_add(1),
                ..*old(metrics)
            }
        }),
{
    let events: usize = delivery.stamps.len();
    if succeeded {
        let mut i: usize = 0;
        while i < delivery.stamps.len()
            invariant
                i <= delivery.stamps.len(),
                forall|node: Seq<char>| #[trigger]
                    progress.at(node) == delivered_through(
                        old(progress).at(node),
                        delivery.stamps@,
                        node,
                        i as nat,
                    ),
            decreases delivery.stamps.len() - i,
        {
            let ghost before = *progress;
            progress.observe(delivery.stamps[i].node.as_str(), delivery.stamps[i].hlc);
            assert forall|node: Seq<char>| #[trigger] progress.at(node) == delivered_through(
                old(progress).at(node),
                delivery.stamps@,
                node,
                (i + 1) as nat,
            ) by {
                assert(before.at(node) == delivered_through(
                    old(progress).at(node),
                    delivery.stamps@,
                    node,
                    i as nat,
                ));
            }
            i = i + 1;
        }
        backoff.succeeded(job.id.as_str());
        outcome.delivered = outcome.delivered.saturating_add(events);
    } else {
        backoff.failed(job.id.as_str(), clock_ms);
        outcome.failed = outcome.failed.saturating_add(1);
    }
    metrics.record_webhook_delivery(succeeded, events);
}

/// A count and some more, at most what it holds.
pub open spec fn plus(a: usize, b: nat) -> usize {
    if a + b <= usize::MAX {
        (a + b) as usize
    } else {
        usize::MAX
    }
}

/// What was delivered is not delivered again: once a delivery has been applied,
/// none of the entries it covers is due.
pub proof fn delivered_events_are_not_due_again(
    job: Job,
    entries: Seq<OplogEntry>,
    stamps: Seq<Stamp>,
    before: VersionVector,
    after: VersionVector,
    i: int,
)
    requires
        stamps_of(stamps, entries),
        forall|node: Seq<char>| #[trigger]
            after.at(node) == delivered_through(before.at(node), stamps, node, stamps.len()),
        0 <= i < stamps.len(),
    ensures
        !is_due(entries[i], job, after),
{
    let node = entries[i].stamp.node@;
    assert(stamps[i].node@ == node);
    lemma_delivered_through(before.at(node), stamps, node, i, stamps.len());
    assert(after.at(node) == delivered_through(before.at(node), stamps, node, stamps.len()));
}

proof fn lemma_delivered_through(start: Hlc, stamps: Seq<Stamp>, node: Seq<char>, i: int, n: nat)
    requires
        0 <= i < n <= stamps.len(),
        stamps[i].node@ == node,
    ensures
        !delivered_through(start, stamps, node, n).before(stamps[i].hlc),
    decreases n,
{
    if i < n - 1 {
        lemma_delivered_through(start, stamps, node, i, (n - 1) as nat);
    }
}

/// Entries in the order of the log: those of one node by their clock readings.
pub open spec fn in_log_order(entries: Seq<OplogEntry>) -> bool {
    forall|a: int, b: int|
        0 <= a < b < entries.len() && entries[a].stamp.node@ == entries[b].stamp.node@
            ==> (#[trigger] entries[a]).stamp.hlc.before((#[trigger] entries[b]).stamp.hlc)
}

/// No event is skipped: what a delivery left out, because the batch was full or
/// the payload cap was reached, is still due once the delivery has been applied.
pub proof fn what_a_delivery_leaves_out_stays_due(
    job: Job,
    entries: Seq<OplogEntry>,
    stamps: Seq<Stamp>,
    before: VersionVector,
    after: VersionVector,
    i: int,
)
    requires
        in_log_order(entries),
        stamps_of(stamps, entries),
        forall|node: Seq<char>| #[trigger]
            after.at(node) == delivered_through(before.at(node), stamps, node, stamps.len()),
        stamps.len() <= i < entries.len(),
        is_due(entries[i], job, before),
    ensures
        is_due(entries[i], job, after),
{
    let node = entries[i].stamp.node@;
    lemma_delivered_before(before.at(node), entries, stamps, stamps.len(), i);
    assert(after.at(node) == delivered_through(before.at(node), stamps, node, stamps.len()));
}

proof fn lemma_delivered_before(
    start: Hlc,
    entries: Seq<OplogEntry>,
    stamps: Seq<Stamp>,
    n: nat,
    i: int,
)
    requires
        in_log_order(entries),
        stamps_of(stamps, entries),
        n <= stamps.len() <= i < entries.len(),
        start.before(entries[i].stamp.hlc),
    ensures
        delivered_through(start, stamps, entries[i].stamp.node@, n).before(entries[i].stamp.hlc),
    decreases n,
{
    if n > 0 {
        lemma_delivered_before(start, entries, stamps, (n - 1) as nat, i);
        assert(stamps[n - 1].hlc == entries[n - 1].stamp.hlc);
    }
}

/// Advancing over entries that hold nothing for a subscription steps over
/// nothing: what follows them in the log and was due is still due.
pub proof fn a_heartbeat_steps_over_nothing(
    job: Job,
    entries: Seq<OplogEntry>,
    scanned: nat,
    before: VersionVector,
    after: VersionVector,
    i: int,
)
    requires
        in_log_order(entries),
        scanned <= entries.len(),
        forall|node: Seq<char>| #[trigger]
            after.at(node) == noted_through(before.at(node), entries, node, scanned),
        due(entries, job, before, scanned).len() == 0,
        0 <= i < entries.len(),
    ensures
        is_due(entries[i], job, after) == is_due(entries[i], job, before),
{
    let node = entries[i].stamp.node@;
    assert(after.at(node) == noted_through(before.at(node), entries, node, scanned));
    lemma_noted_rises(before.at(node), entries, node, scanned);
    if i < scanned {
        lemma_none_due(entries, job, before, scanned, i);
    } else if before.at(node).before(entries[i].stamp.hlc) {
        lemma_noted_before(before.at(node), entries, scanned, i);
    }
}

proof fn lemma_noted_rises(start: Hlc, entries: Seq<OplogEntry>, node: Seq<char>, n: nat)
    ensures
        !noted_through(start, entries, node, n).before(start),
    decreases n,
{
    if n > 0 {
        lemma_noted_rises(start, entries, node, (n - 1) as nat);
    }
}

proof fn lemma_noted_before(start: Hlc, entries: Seq<OplogEntry>, n: nat, i: int)
    requires
        in_log_order(entries),
        n <= i < entries.len(),
        start.before(entries[i].stamp.hlc),
    ensures
        noted_through(start, entries, entries[i].stamp.node@, n).before(entries[i].stamp.hlc),
    decreases n,
{
    if n > 0 {
        lemma_noted_before(start, entries, (n - 1) as nat, i);
    }
}

proof fn lemma_none_due(
    entries: Seq<OplogEntry>,
    job: Job,
    progress: VersionVector,
    n: nat,
    i: int,
)
    requires
        due(entries, job, progress, n).len() == 0,
        0 <= i < n,
    ensures
        !is_due(entries[i], job, progress),
    decreases n,
{
    if i < n - 1 {
        lemma_none_due(entries, job, progress, (n - 1) as nat, i);
    }
}

/// Failures are counted in a row: over any calls on a backoff in which nothing
/// had failed, a subscription's count is how often it failed since it last
/// succeeded or was last pruned, whatever was called for others in between. One
/// that has not failed since has nothing held against it.
pub proof fn failures_are_counted_since_the_last_success(
    history: Seq<Backoff>,
    calls: Seq<BackoffCall>,
    id: Seq<char>,
)
    requires
        history.len() == calls.len() + 1,
        history[0].state(id) is None,
        forall|i: int|
            0 <= i < calls.len() ==> history[i + 1].state(id) == after_call(
                history[i].state(id),
                #[trigger] calls[i],
                id,
            ),
    ensures
        history.last().failures_of(id) == (if failures_since(calls, id) <= u32::MAX {
            failures_since(calls, id) as u32
        } else {
            u32::MAX
        }),
        failures_since(calls, id) == 0 <==> history.last().state(id) is None,
    decreases calls.len(),
{
    if calls.len() > 0 {
        let earlier = history.drop_last();
        let fewer = calls.drop_last();
        assert forall|i: int| 0 <= i < fewer.len() implies earlier[i + 1].state(id) == after_call(
            earlier[i].state(id),
            #[trigger] fewer[i],
            id,
        ) by {
            assert(calls[i] == fewer[i]);
        }
        failures_are_counted_since_the_last_success(earlier, fewer, id);
        assert(history.last().state(id) == after_call(
            history[calls.len() - 1].state(id),
            calls[calls.len() - 1],
            id,
        ));
    }
}

/// A failure is one more in a row, and the subscription waits from then on for
/// two seconds doubled as often as it has failed in a row, eight times at most,
/// and for five minutes at most. No other subscription waits for it.
pub proof fn a_failure_delays_its_own_subscription_alone(
    before: Backoff,
    after: Backoff,
    subscription: Seq<char>,
    now_ms: u64,
    other: Seq<char>,
    clock_ms: u64,
)
    requires
        forall|id: Seq<char>| #[trigger]
            after.state(id) == after_call(
                before.state(id),
                BackoffCall::Failed { subscription, now_ms },
                id,
            ),
    ensures
        after.failures_of(subscription) == (if before.failures_of(subscription) < u32::MAX {
            before.failures_of(subscription) + 1
        } else {
            u32::MAX as int
        }),
        after.is_ready(subscription, clock_ms) <==> clock_ms >= now_ms + backoff_delay(
            after.failures_of(subscription),
        ),
        other != subscription ==> after.failures_of(other) == before.failures_of(other)
            && after.is_ready(other, clock_ms) == before.is_ready(other, clock_ms),
{
    assert(after.state(subscription) == after_call(
        before.state(subscription),
        BackoffCall::Failed { subscription, now_ms },
        subscription,
    ));
    assert(after.state(other) == after_call(
        before.state(other),
        BackoffCall::Failed { subscription, now_ms },
        other,
    ));
    backoff_waits(after.failures_of(subscription));
}

/// The waits, in milliseconds: four seconds after the first failure, doubled to
/// 256 seconds at the seventh, and five minutes from the eighth on.
pub proof fn backoff_waits(count: u32)
    ensures
        backoff_delay(1) == 4_000,
        backoff_delay(2) == 8_000,
        backoff_delay(3) == 16_000,
        backoff_delay(4) == 32_000,
        backoff_delay(5) == 64_000,
        backoff_delay(6) == 128_000,
        backoff_delay(7) == 256_000,
        count >= 8 ==> backoff_delay(count) == 300_000,
        backoff_delay(count) <= BACKOFF_MAX_MS,
{
    reveal_with_fuel(power_of_two, 9);
}

} // verus!
