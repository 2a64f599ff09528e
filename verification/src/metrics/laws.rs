//! What holds of the ages, the marks and the histograms over more than one
//! reading.

use vstd::prelude::*;

use super::page::cumulative;
use super::{bucket_of, clamped, larger, observed, LiveReadings, Metrics};

verus! {

/// Before a writer's first completion its age is the time since the process
/// started, and so never stays 0 for "not yet".
pub proof fn an_age_before_the_first_completion_is_the_time_since_start(
    m: Metrics,
    live: LiveReadings,
    slot: int,
    now: u64,
)
    requires
        0 <= slot < 5,
        m.runs_slot(slot),
        m.last_progress(live, slot) is None,
    ensures
        m.progress_age(live, slot, now) == Some(super::seconds_between(m.started, now)),
        now >= m.started + 1_000_000_000 ==> m.progress_age(live, slot, now)->0 > 0,
{
}

/// An age rises between reads when nothing is written in between: it is measured
/// when it is read, so a stuck loop cannot freeze it. That of the divergence
/// check rises in the same way.
pub proof fn an_age_rises_while_nothing_is_written(
    m: Metrics,
    live: LiveReadings,
    slot: int,
    earlier: u64,
    later: u64,
)
    requires
        0 <= slot < 5,
        m.runs_slot(slot),
        earlier <= later,
    ensures
        m.progress_age(live, slot, earlier)->0 <= m.progress_age(live, slot, later)->0,
        m.check_age(earlier) <= m.check_age(later),
        later - earlier >= 1_000_000_000 && earlier >= (match m.last_progress(live, slot) {
            Some(at) => at,
            None => m.started,
        }) ==> m.progress_age(live, slot, earlier)->0 < m.progress_age(live, slot, later)->0,
{
}

/// A writer this node does not run has no age, and one it runs always has one.
pub proof fn only_a_writer_this_node_runs_has_an_age(
    m: Metrics,
    live: LiveReadings,
    slot: int,
    now: u64,
)
    requires
        0 <= slot < 5,
    ensures
        m.progress_age(live, slot, now) is Some <==> m.runs_slot(slot),
{
}

/// A probe's wake resets the probe's age and no other, and a dispatch pass the
/// dispatcher's and no other.
pub proof fn each_writer_resets_its_own_age_and_no_other(
    m: Metrics,
    live: LiveReadings,
    slot: int,
    late_us: u128,
    backlog_secs: u64,
    at: u64,
    now: u64,
)
    requires
        0 <= slot < 5,
    ensures
        ({
            let probed = Metrics {
                runtime_stall_us: larger(m.runtime_stall_us, clamped(late_us)),
                runtime_stall_otlp_us: larger(m.runtime_stall_otlp_us, clamped(late_us)),
                stall_probe_progress: Some(at),
                ..m
            };
            &&& slot != 3 ==> probed.progress_age(live, slot, now) == m.progress_age(
                live,
                slot,
                now,
            )
            &&& m.runs_slot(3) ==> probed.progress_age(live, 3, at) == Some(0u64)
        }),
        ({
            let dispatched = Metrics {
                webhook_backlog_secs: backlog_secs,
                dispatcher_progress: Some(at),
                ..m
            };
            &&& slot != 4 ==> dispatched.progress_age(live, slot, now) == m.progress_age(
                live,
                slot,
                now,
            )
            &&& m.runs_slot(4) ==> dispatched.progress_age(live, 4, at) == Some(0u64)
        }),
{
}

/// Bounds in ascending order.
pub open spec fn rising(bounds: Seq<u64>) -> bool {
    forall|i: int, j: int| 0 <= i < j < bounds.len() ==> #[trigger] bounds[i] < #[trigger] bounds[j]
}

/// An observation counts in every bucket whose bound it does not exceed, and in
/// no other: the buckets on the page are cumulative, and an observation above
/// every bound reaches only the count of all.
pub proof fn an_observation_counts_in_every_bucket_it_fits(
    bounds: Seq<u64>,
    counts: Seq<u64>,
    micros: u64,
    n: nat,
)
    requires
        rising(bounds),
        counts.len() == bounds.len(),
        0 < n <= bounds.len(),
    ensures
        cumulative(observed(bounds, counts, micros), n) == (if micros <= bounds[n - 1] {
            cumulative(counts, n).wrapping_add(1)
        } else {
            cumulative(counts, n)
        }),
{
    lemma_bucket_of(bounds, micros);
    lemma_cumulative(bounds, counts, micros, n);
    match bucket_of(bounds, micros) {
        Some(k) => {
            if k <= n - 1 {
                assert(bounds[k] <= bounds[n - 1]);
            }
        },
        None => {},
    }
}

proof fn lemma_bucket_of(bounds: Seq<u64>, micros: u64)
    ensures
        match bucket_of(bounds, micros) {
            Some(k) => {
                &&& 0 <= k < bounds.len()
                &&& micros <= bounds[k]
                &&& forall|i: int| 0 <= i < k ==> micros > #[trigger] bounds[i]
            },
            None => forall|i: int| 0 <= i < bounds.len() ==> micros > #[trigger] bounds[i],
        },
    decreases bounds.len(),
{
    if bounds.len() > 0 && micros > bounds[0] {
        let rest = bounds.skip(1);
        lemma_bucket_of(rest, micros);
        let end = match bucket_of(rest, micros) {
            Some(k) => k + 1,
            None => bounds.len() as int,
        };
        assert forall|i: int| 0 <= i < end implies micros > #[trigger] bounds[i] by {
            if i > 0 {
                assert(rest[i - 1] == bounds[i]);
            }
        }
    }
}

proof fn lemma_cumulative(bounds: Seq<u64>, counts: Seq<u64>, micros: u64, n: nat)
    requires
        counts.len() == bounds.len(),
        n <= bounds.len(),
    ensures
        cumulative(observed(bounds, counts, micros), n) == (match bucket_of(bounds, micros) {
            Some(k) if k < n => cumulative(counts, n).wrapping_add(1),
            _ => cumulative(counts, n),
        }),
    decreases n,
{
    lemma_bucket_of(bounds, micros);
    if n > 0 {
        lemma_cumulative(bounds, counts, micros, (n - 1) as nat);
    }
}

/// The bounds of the latency and backup histograms rise.
pub proof fn histogram_bounds_rise()
    ensures
        rising(super::LATENCY_BUCKETS_US@),
        rising(super::BACKUP_BUCKETS_US@),
{
}

/// Each reader of the runtime stall clears only its own mark: what the page took
/// is still there for the telemetry bridge, and the other way round. A mark is
/// the worst stall since its own reader last asked.
pub proof fn each_stall_reader_clears_only_its_own_mark(m: Metrics, a: u128, b: u128)
    ensures
        larger(larger(m.runtime_stall_us, clamped(a)), clamped(b)) >= clamped(a),
        larger(larger(m.runtime_stall_us, clamped(a)), clamped(b)) >= clamped(b),
        (Metrics { runtime_stall_us: 0, ..m }).runtime_stall_otlp_us == m.runtime_stall_otlp_us,
        (Metrics { runtime_stall_otlp_us: 0, ..m }).runtime_stall_us == m.runtime_stall_us,
        larger(0, clamped(a)) == clamped(a),
{
}

} // verus!
