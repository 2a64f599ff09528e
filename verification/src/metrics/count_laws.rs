//! What each count stands for, over the calls that make it.

use vstd::prelude::*;
use vstd::string::*;

use super::page::cumulative;
use super::{
    ConfirmOutcome, LiveReadings, Metrics, MetricsSnapshot, ProcessMemory, PullReport, RoundReport,
    StorageReadings, SyncOutcome, BACKUP_BUCKETS_US, CONFIRM_OUTCOMES, LATENCY_BUCKETS_US,
    PROGRESS_WRITERS,
};
use crate::text::{all_digits, digits_value};
use crate::text_laws::{
    is_first_line_with, is_first_word, is_rest_of_line, lemma_first_word, lemma_line_after,
    line_starts_with,
};

verus! {

/// A finished request counts once, and once in the class of its status: two, four or
/// five hundreds. A 401 is besides a failed authentication, a 403 a denial, and a 429
/// a refusal for its rate; no other status is any of these.
pub proof fn a_request_counts_in_its_own_class(m: &mut Metrics, status: u16)
    requires
        call_ensures(Metrics::record_request, (m, status), ()),
    ensures
        final(m).requests == old(m).requests.wrapping_add(1),
        200 <= status < 300 ==> final(m).responses_2xx == old(m).responses_2xx.wrapping_add(1),
        !(200 <= status < 300) ==> final(m).responses_2xx == old(m).responses_2xx,
        400 <= status < 500 ==> final(m).responses_4xx == old(m).responses_4xx.wrapping_add(1),
        !(400 <= status < 500) ==> final(m).responses_4xx == old(m).responses_4xx,
        500 <= status < 600 ==> final(m).responses_5xx == old(m).responses_5xx.wrapping_add(1),
        !(500 <= status < 600) ==> final(m).responses_5xx == old(m).responses_5xx,
        status == 401 ==> final(m).auth_failures == old(m).auth_failures.wrapping_add(1),
        status != 401 ==> final(m).auth_failures == old(m).auth_failures,
        status == 403 ==> final(m).authz_denied == old(m).authz_denied.wrapping_add(1),
        status != 403 ==> final(m).authz_denied == old(m).authz_denied,
        status == 429 ==> final(m).rate_limited == old(m).rate_limited.wrapping_add(1),
        status != 429 ==> final(m).rate_limited == old(m).rate_limited,
        final(m).latency_count == old(m).latency_count,
        final(m).backups == old(m).backups,
        final(m).ttl_expired == old(m).ttl_expired,
        final(m).webhook_delivered == old(m).webhook_delivered,
{
}

/// A request's time counts once, adds to the sum, and counts in every bucket of the
/// page that it fits and in no other.
pub proof fn a_latency_counts_in_the_buckets_it_fits(m: &mut Metrics, micros: u128, n: nat)
    requires
        call_ensures(Metrics::record_latency, (m, micros), ()),
        micros <= u64::MAX,
        0 < n <= LATENCY_BUCKETS_US@.len(),
    ensures
        final(m).latency_count == old(m).latency_count.wrapping_add(1),
        final(m).latency_sum_us == old(m).latency_sum_us.wrapping_add(micros as u64),
        cumulative(final(m).latency_buckets@, n) == (if micros <= LATENCY_BUCKETS_US@[n - 1] {
            cumulative(old(m).latency_buckets@, n).wrapping_add(1)
        } else {
            cumulative(old(m).latency_buckets@, n)
        }),
{
    super::laws::histogram_bounds_rise();
    super::laws::an_observation_counts_in_every_bucket_it_fits(
        LATENCY_BUCKETS_US@,
        old(m).latency_buckets@,
        micros as u64,
        n,
    );
}

/// So does a backup's.
pub proof fn a_backup_counts_in_the_buckets_it_fits(m: &mut Metrics, micros: u128, n: nat)
    requires
        call_ensures(Metrics::record_backup, (m, micros), ()),
        micros <= u64::MAX,
        0 < n <= BACKUP_BUCKETS_US@.len(),
    ensures
        final(m).backups == old(m).backups.wrapping_add(1),
        final(m).backup_sum_us == old(m).backup_sum_us.wrapping_add(micros as u64),
        cumulative(final(m).backup_buckets@, n) == (if micros <= BACKUP_BUCKETS_US@[n - 1] {
            cumulative(old(m).backup_buckets@, n).wrapping_add(1)
        } else {
            cumulative(old(m).backup_buckets@, n)
        }),
{
    super::laws::histogram_bounds_rise();
    super::laws::an_observation_counts_in_every_bucket_it_fits(
        BACKUP_BUCKETS_US@,
        old(m).backup_buckets@,
        micros as u64,
        n,
    );
}

/// A confirmation counts under the label of its outcome, and under no other.
pub proof fn a_confirmation_counts_under_its_label(
    m: &mut Metrics,
    outcome: ConfirmOutcome,
    i: int,
)
    requires
        call_ensures(Metrics::record_ddl_confirmation, (m, outcome), ()),
        0 <= i < 12,
    ensures
        is_label(outcome, CONFIRM_OUTCOMES@[i]@) ==> final(m).ddl_confirmations@[i] == old(
            m).ddl_confirmations@[i].wrapping_add(1),
        !is_label(outcome, CONFIRM_OUTCOMES@[i]@) ==> final(m).ddl_confirmations@[i] == old(
            m).ddl_confirmations@[i],
{
    lemma_labels(outcome, i);
}

/// The label of an outcome.
pub open spec fn is_label(outcome: ConfirmOutcome, label: Seq<char>) -> bool {
    match outcome {
        ConfirmOutcome::Confirmed => label == "confirmed"@,
        ConfirmOutcome::Refused => label == "refused"@,
        ConfirmOutcome::Timeout => label == "timeout"@,
        ConfirmOutcome::Failed => label == "failed"@,
        ConfirmOutcome::Unreached => label == "unreached"@,
        ConfirmOutcome::Purging => label == "purging"@,
        ConfirmOutcome::StoppedUnknown => label == "stopped_unknown"@,
        ConfirmOutcome::OtherMember => label == "other_member"@,
        ConfirmOutcome::TaskEnded => label == "task_ended"@,
        ConfirmOutcome::Backoff => label == "backoff"@,
        ConfirmOutcome::Unattributable => label == "unattributable"@,
        ConfirmOutcome::Cancelled => label == "cancelled"@,
    }
}

proof fn lemma_labels(outcome: ConfirmOutcome, i: int)
    requires
        0 <= i < 12,
    ensures
        is_label(outcome, CONFIRM_OUTCOMES@[i]@) <==> i == outcome.place(),
{
    reveal_strlit("confirmed");
    reveal_strlit("refused");
    reveal_strlit("timeout");
    reveal_strlit("failed");
    reveal_strlit("unreached");
    reveal_strlit("purging");
    reveal_strlit("stopped_unknown");
    reveal_strlit("other_member");
    reveal_strlit("task_ended");
    reveal_strlit("backoff");
    reveal_strlit("unattributable");
    reveal_strlit("cancelled");
    assert("confirmed"@.len() == 9 && "refused"@.len() == 7 && "timeout"@.len() == 7
        && "failed"@.len() == 6 && "unreached"@.len() == 9 && "purging"@.len() == 7);
    assert("stopped_unknown"@.len() == 15 && "other_member"@.len() == 12 && "task_ended"@.len()
        == 10 && "backoff"@.len() == 7 && "unattributable"@.len() == 14 && "cancelled"@.len()
        == 9);
    assert("confirmed"@[1] == 'o' && "unreached"@[1] == 'n' && "cancelled"@[1] == 'a');
    assert("refused"@[0] == 'r' && "timeout"@[0] == 't' && "purging"@[0] == 'p' && "backoff"@[0]
        == 'b');
}

/// A stall is kept as the worst since each of its readers last asked, and the one
/// that asks for telemetry gets its own and clears it alone.
pub proof fn a_stall_is_kept_until_it_is_read(
    m: &mut Metrics,
    late_us: u128,
    now: u64,
    read: &mut Metrics,
    us: u64,
)
    requires
        call_ensures(Metrics::record_runtime_stall, (m, late_us, now), ()),
        call_ensures(Metrics::take_runtime_stall_otlp_us, (read,), us),
        late_us <= u64::MAX,
    ensures
        final(m).runtime_stall_us >= late_us,
        final(m).runtime_stall_us >= old(m).runtime_stall_us,
        final(m).runtime_stall_us == late_us || final(m).runtime_stall_us == old(
            m).runtime_stall_us,
        final(m).runtime_stall_otlp_us >= late_us,
        final(m).runtime_stall_otlp_us >= old(m).runtime_stall_otlp_us,
        final(m).runtime_stall_otlp_us == late_us || final(m).runtime_stall_otlp_us == old(
            m).runtime_stall_otlp_us,
        us == old(read).runtime_stall_otlp_us,
        final(read).runtime_stall_otlp_us == 0,
        final(read).runtime_stall_us == old(read).runtime_stall_us,
{
}

/// A process has been up for the whole seconds since it started.
pub proof fn a_process_is_up_since_it_started(m: Metrics, clock: u64, secs: u64)
    requires
        call_ensures(Metrics::uptime_secs, (&m, clock), secs),
    ensures
        clock >= m.started ==> secs * 1_000_000_000 <= clock - m.started < secs * 1_000_000_000
            + 1_000_000_000,
        clock < m.started ==> secs == 0,
{
}

/// What expired, what was refreshed meanwhile and what a filter declined are counted
/// apart.
pub proof fn an_expiry_pass_counts_apart(m: &mut Metrics, gone: u64, skipped: u64, declined: u64)
    requires
        call_ensures(Metrics::record_expiry, (m, gone, skipped, declined), ()),
    ensures
        final(m).ttl_expired == old(m).ttl_expired.wrapping_add(gone),
        final(m).ttl_skipped == old(m).ttl_skipped.wrapping_add(skipped),
        final(m).ttl_skipped_filter == old(m).ttl_skipped_filter.wrapping_add(declined),
        final(m).requests == old(m).requests,
{
}

/// A report of pulls adds each of its counts to its own.
pub proof fn a_report_adds_to_its_own_counts(m: &mut PullReport, other: PullReport, i: int)
    requires
        call_ensures(PullReport::add_all, (m, &other), ()),
        0 <= i < 16,
    ensures
        final(m).entries == old(m).entries.wrapping_add(other.entries),
        final(m).entry_wait_ahead == old(m).entry_wait_ahead.wrapping_add(other.entry_wait_ahead),
        i < 4 ==> final(m).contacts@[i] == old(m).contacts@[i].wrapping_add(other.contacts@[i]),
        final(m).serve.count == old(m).serve.count.wrapping_add(other.serve.count),
        final(m).wait.count == old(m).wait.count.wrapping_add(other.wait.count),
        final(m).apply.count == old(m).apply.count.wrapping_add(other.apply.count),
        final(m).serve.sum_us == old(m).serve.sum_us.wrapping_add(other.serve.sum_us),
        final(m).wait.sum_us == old(m).wait.sum_us.wrapping_add(other.wait.sum_us),
        final(m).apply.sum_us == old(m).apply.sum_us.wrapping_add(other.apply.sum_us),
        final(m).serve.buckets@[i] == old(m).serve.buckets@[i].wrapping_add(
            other.serve.buckets@[i],
        ),
        final(m).wait.buckets@[i] == old(m).wait.buckets@[i].wrapping_add(other.wait.buckets@[i]),
        final(m).apply.buckets@[i] == old(m).apply.buckets@[i].wrapping_add(
            other.apply.buckets@[i],
        ),
        i < 11 ==> final(m).entry_wait.buckets@[i] == old(m).entry_wait.buckets@[i].wrapping_add(
            other.entry_wait.buckets@[i],
        ),
{
}

/// A snapshot reads each counter and each reading as it is, each in its own place.
pub proof fn a_snapshot_reads_each_counter_as_it_is(
    m: Metrics,
    readings: StorageReadings,
    live: LiveReadings,
    now: u64,
    s: MetricsSnapshot,
)
    requires
        call_ensures(Metrics::snapshot_with_at, (&m, &readings, &live, now), s),
    ensures
        s.databases == readings.databases,
        s.collections == readings.collections,
        s.unique_violations == readings.unique_violations,
        s.commits == readings.commits,
        s.fsyncs == readings.fsyncs,
        s.commits_grouped == readings.commits_grouped,
        s.storage_bytes == readings.storage_bytes,
        s.vector_index_cache_bytes == readings.vector_index_cache_bytes,
        s.process_resident_bytes == readings.process_resident_bytes,
        s.process_resident_peak_bytes == readings.process_resident_peak_bytes,
        s.index_unkeyed == readings.index_unkeyed,
        s.index_undecidable == readings.index_undecidable,
        s.write_lock_wait_timeouts == readings.writer_wait_timeouts,
        s.write_lock_held_max_us == readings.writer_hold_max_us,
        s.write_lock_holds == readings.writer_hold.count,
        s.write_lock_held_us == readings.writer_hold.sum_us,
        s.write_lock_hold == readings.writer_hold_decomposition,
        s.sync_serve == readings.serve,
        s.webhook_active == readings.webhook_active,
        s.webhook_invalidated == readings.webhook_invalidated,
        s.webhook_unreadable == readings.webhook_unreadable,
        s.cluster_members == readings.cluster_members,
        s.sync_ddl_relogged == readings.sync_ddl_relogged,
        s.sync_held_marks_released == readings.held_marks_released,
        s.sync_held_marks == readings.held_marks,
        s.requests == m.requests,
        s.responses_2xx == m.responses_2xx,
        s.responses_4xx == m.responses_4xx,
        s.responses_5xx == m.responses_5xx,
        s.authz_denied == m.authz_denied,
        s.auth_failures == m.auth_failures,
        s.rate_limited == m.rate_limited,
        s.rate_limited_principal == m.rate_limited_principal,
        s.backups == m.backups,
        s.ttl_expired == m.ttl_expired,
        s.ttl_skipped == m.ttl_skipped,
        s.ttl_skipped_filter == m.ttl_skipped_filter,
        s.webhook_delivered == m.webhook_delivered,
        s.webhook_failed == m.webhook_failed,
        s.webhook_events == m.webhook_events,
        s.webhook_backlog_secs == m.webhook_backlog_secs,
        s.replication_lag_ms == m.replication_lag_ms,
        s.sync_failures == m.sync_failures,
        s.sync_peers_backing_off == m.sync_peers_backing_off,
        s.sync_ddl_refused == m.sync_ddl_refused,
        s.sync_ddl_declined == m.sync_ddl_declined,
        s.sync_ddl_applied_pull == m.sync_ddl_applied_pull,
        s.sync_ddl_applied_push == m.sync_ddl_applied_push,
        s.sync_ddl_held_pull == m.sync_ddl_held_pull,
        s.sync_ddl_held_push == m.sync_ddl_held_push,
        s.ddl_confirmations == m.ddl_confirmations,
        s.ddl_confirm_pushes == m.ddl_confirm_pushes,
        s.sync_divergent_collections == m.sync_divergent_collections,
        s.sync_divergence_checks == m.sync_divergence_checks,
        s.sync_divergence_skips == m.sync_divergence_skips,
        s.sync_divergence_count_compared == m.sync_divergence_count_compared,
        s.sync_divergence_count_deferred == m.sync_divergence_count_deferred,
        s.sync_entries_skipped_unknown_collection == m.sync_entries_skipped_unknown_collection,
        s.sync_entries_skipped_beyond_advertised == m.sync_entries_skipped_beyond_advertised,
        s.sync_entries_skipped_purge_pending == m.sync_entries_skipped_purge_pending,
        s.sync_repair_rounds == m.sync_repair_rounds,
        s.sync_pulls == m.sync_pulls,
        s.runtime_stall_us == m.runtime_stall_us,
        s.tls_reloads_ok == m.tls_reloads_ok,
        s.tls_reloads_failed == m.tls_reloads_failed,
        s.jwks_refresh_ok == m.jwks_refresh_ok,
        s.jwks_refresh_failed == m.jwks_refresh_failed,
        s.latency_count == m.latency_count,
        s.latency_sum_us == m.latency_sum_us,
        s.backup_duration_sum_us == m.backup_sum_us,
        s.embed_provider_requests == live.provider_requests,
        s.embed_provider_tokens == live.provider_tokens,
        live.worker is Some ==> s.embed_documents_embedded == live.worker->0.documents_embedded,
        live.worker is Some ==> s.embed_chunks_embedded == live.worker->0.chunks_embedded,
        live.worker is Some ==> s.embed_deferred == live.worker->0.deferred,
        live.worker is Some ==> s.embed_skipped_not_owned == live.worker->0.skipped_not_owned,
        live.worker is Some ==> s.embed_skipped_no_shadow == live.worker->0.skipped_no_shadow,
        live.worker is Some ==> s.embed_failures == live.worker->0.failures,
        live.worker is Some ==> s.embed_transport == live.worker->0.transport,
        live.worker is None ==> s.embed_documents_embedded == 0 && s.embed_chunks_embedded == 0
            && s.embed_deferred == 0 && s.embed_failures == 0,
        live.clock >= m.started ==> s.uptime_secs * 1_000_000_000 <= live.clock - m.started
            < s.uptime_secs * 1_000_000_000 + 1_000_000_000,
{
}

/// Whether an age is the whole seconds since a writer last made progress, or since
/// the process started where it has not yet.
pub open spec fn is_age(age: u64, last: Option<u64>, started: u64, now: u64) -> bool {
    let since = match last {
        Some(at) => at,
        None => started,
    };
    &&& now >= since ==> age * 1_000_000_000 <= now - since < age * 1_000_000_000 + 1_000_000_000
    &&& now < since ==> age == 0
}

/// Each background writer's age is measured from its own progress, and only those
/// that this node runs have one; so is the age of the last divergence check.
pub proof fn an_age_is_measured_from_its_own_progress(
    m: Metrics,
    readings: StorageReadings,
    live: LiveReadings,
    now: u64,
    s: MetricsSnapshot,
)
    requires
        call_ensures(Metrics::snapshot_with_at, (&m, &readings, &live, now), s),
        m.progress_writers is None,
    ensures
        s.task_progress_age_secs@[0] is Some && is_age(
            s.task_progress_age_secs@[0]->0,
            live.purge_progress,
            m.started,
            now,
        ),
        s.task_progress_age_secs@[1] is Some && is_age(
            s.task_progress_age_secs@[1]->0,
            match live.worker {
                Some(worker) => worker.last_progress,
                None => None,
            },
            m.started,
            now,
        ),
        s.task_progress_age_secs@[2] is Some && is_age(
            s.task_progress_age_secs@[2]->0,
            m.replication_progress,
            m.started,
            now,
        ),
        s.task_progress_age_secs@[3] is Some && is_age(
            s.task_progress_age_secs@[3]->0,
            m.stall_probe_progress,
            m.started,
            now,
        ),
        s.task_progress_age_secs@[4] is Some && is_age(
            s.task_progress_age_secs@[4]->0,
            m.dispatcher_progress,
            m.started,
            now,
        ),
        is_age(s.sync_divergence_check_age_secs, m.sync_divergence_last_check, m.started, now),
{
    assert(m.reads_as(readings, live, now, s));
    assert(s.task_progress_age_secs@[0] == m.progress_age(live, 0, now));
    assert(s.task_progress_age_secs@[1] == m.progress_age(live, 1, now));
    assert(s.task_progress_age_secs@[2] == m.progress_age(live, 2, now));
    assert(s.task_progress_age_secs@[3] == m.progress_age(live, 3, now));
    assert(s.task_progress_age_secs@[4] == m.progress_age(live, 4, now));
}

/// Whether a status text gives this number of bytes under a name: the kilobytes that
/// are the first word behind the name, in the first line that starts with it, and
/// zero where there is none.
pub open spec fn says_bytes(status: Seq<char>, name: Seq<char>, bytes: u64) -> bool {
    ||| bytes == 0 && forall|j: int| !#[trigger] line_starts_with(status, j, name)
    ||| exists|k: int, rest: Seq<char>, w: Seq<char>|
        {
            &&& is_first_line_with(status, k, name)
            &&& #[trigger] is_rest_of_line(status, k + name.len(), rest)
            &&& #[trigger] is_first_word(rest, w)
            &&& all_digits(w) && digits_value(w) * 1024 <= u64::MAX ==> bytes == digits_value(w)
                * 1024
            &&& all_digits(w) && digits_value(w) <= u64::MAX && digits_value(w) * 1024 > u64::MAX
                ==> bytes == u64::MAX
            &&& all_digits(w) && digits_value(w) > u64::MAX ==> bytes == 0
            &&& w.len() == 0 || (w[0] != '+' && !all_digits(w)) ==> bytes == 0
        }
}

/// The resident memory and its peak are read off their own lines, in kilobytes.
pub proof fn memory_is_read_off_its_own_line(status: &str, m: ProcessMemory)
    requires
        call_ensures(ProcessMemory::parse, (status,), m),
    ensures
        says_bytes(status@, "VmRSS:"@, m.resident_bytes),
        says_bytes(status@, "VmHWM:"@, m.peak_resident_bytes),
{
    reveal_strlit("VmRSS:");
    reveal_strlit("VmHWM:");
    lemma_says_bytes(status@, "VmRSS:"@);
    lemma_says_bytes(status@, "VmHWM:"@);
}

proof fn lemma_says_bytes(status: Seq<char>, name: Seq<char>)
    requires
        !name.contains('\n'),
    ensures
        says_bytes(status, name, crate::metrics::status_bytes(status, name)),
{
    let k = lemma_line_after(status, name);
    match crate::text::line_after(status, name) {
        Some(rest) => {
            let w = crate::text::first_word(rest);
            lemma_first_word(rest);
            assert(is_rest_of_line(status, k + name.len(), rest));
            assert(is_first_word(rest, w));
        },
        None => {},
    }
}

/// A request refused for its principal's rate counts there alone.
pub proof fn a_principal_refused_counts_once(m: &mut Metrics)
    requires
        call_ensures(Metrics::record_principal_rate_limited, (m,), ()),
    ensures
        final(m).rate_limited_principal == old(m).rate_limited_principal.wrapping_add(1),
        final(m).rate_limited == old(m).rate_limited,
        final(m).requests == old(m).requests,
{
}

/// A delivery counts once as delivered or as failed; its events count only where it
/// was delivered.
pub proof fn a_delivery_counts_as_it_ended(m: &mut Metrics, succeeded: bool, events: usize)
    requires
        call_ensures(Metrics::record_webhook_delivery, (m, succeeded, events), ()),
    ensures
        succeeded ==> final(m).webhook_delivered == old(m).webhook_delivered.wrapping_add(1),
        succeeded ==> final(m).webhook_events == old(m).webhook_events.wrapping_add(events as u64),
        succeeded ==> final(m).webhook_failed == old(m).webhook_failed,
        !succeeded ==> final(m).webhook_failed == old(m).webhook_failed.wrapping_add(1),
        !succeeded ==> final(m).webhook_delivered == old(m).webhook_delivered,
        !succeeded ==> final(m).webhook_events == old(m).webhook_events,
{
}

/// The backlog is what the dispatcher last said, and saying it is its progress.
pub proof fn the_backlog_is_the_last_one_said(m: &mut Metrics, secs: u64, now: u64)
    requires
        call_ensures(Metrics::set_webhook_backlog, (m, secs, now), ()),
    ensures
        final(m).webhook_backlog_secs == secs,
        final(m).dispatcher_progress == Some(now),
        final(m).replication_progress == old(m).replication_progress,
        final(m).stall_probe_progress == old(m).stall_probe_progress,
        final(m).webhook_delivered == old(m).webhook_delivered,
{
}

/// The replication lag is the last one set.
pub proof fn the_lag_is_the_last_one_set(m: &mut Metrics, ms: u64)
    requires
        call_ensures(Metrics::set_replication_lag_ms, (m, ms), ()),
    ensures
        final(m).replication_lag_ms == ms,
        final(m).replication_progress == old(m).replication_progress,
{
}

/// A sync round adds what it counted, each to its own count, and replaces what is a
/// level: the peers in backoff, the divergent collections and the two instants.
pub proof fn a_round_adds_its_counts_and_replaces_its_levels(m: &mut Metrics, round: RoundReport)
    requires
        call_ensures(Metrics::record_sync_round, (m, &round), ()),
    ensures
        final(m).sync_peers_backing_off == round.backing_off,
        final(m).sync_divergent_collections == round.divergent_collections,
        final(m).sync_divergence_last_check == round.divergence_last_check,
        final(m).replication_progress == round.last_completed_round,
        final(m).sync_failures == old(m).sync_failures.wrapping_add(round.failed as u64),
        final(m).sync_ddl_refused == old(m).sync_ddl_refused.wrapping_add(
            round.ddl_refused as u64,
        ),
        final(m).sync_ddl_declined == old(m).sync_ddl_declined.wrapping_add(
            round.ddl_declined as u64,
        ),
        final(m).sync_ddl_applied_pull == old(m).sync_ddl_applied_pull.wrapping_add(
            round.ddl_applied as u64,
        ),
        final(m).sync_ddl_held_pull == old(m).sync_ddl_held_pull.wrapping_add(
            round.ddl_held as u64,
        ),
        final(m).sync_ddl_applied_push == old(m).sync_ddl_applied_push,
        final(m).sync_ddl_held_push == old(m).sync_ddl_held_push,
        final(m).sync_divergence_checks == old(m).sync_divergence_checks.wrapping_add(
            round.divergence_checks as u64,
        ),
        final(m).sync_divergence_skips == old(m).sync_divergence_skips.wrapping_add(
            round.divergence_skips as u64,
        ),
        final(m).sync_divergence_count_compared == old(m).sync_divergence_count_compared.wrapping_add(round.divergence_count_compared as u64),
        final(m).sync_divergence_count_deferred == old(m).sync_divergence_count_deferred.wrapping_add(round.divergence_count_deferred as u64),
        final(m).sync_repair_rounds == old(m).sync_repair_rounds.wrapping_add(
            round.repair_rounds as u64,
        ),
        final(m).sync_entries_skipped_unknown_collection == old(m).sync_entries_skipped_unknown_collection.wrapping_add(
            round.entries_skipped_unknown_collection as u64,
        ),
        final(m).sync_entries_skipped_beyond_advertised == old(m).sync_entries_skipped_beyond_advertised.wrapping_add(
            round.entries_skipped_beyond_advertised as u64,
        ),
        final(m).sync_entries_skipped_purge_pending == old(m).sync_entries_skipped_purge_pending.wrapping_add(
            round.entries_skipped_purge_pending as u64,
        ),
        final(m).sync_pulls.entries == old(m).sync_pulls.entries.wrapping_add(round.pulls.entries),
        final(m).sync_pulls.apply.count == old(m).sync_pulls.apply.count.wrapping_add(
            round.pulls.apply.count,
        ),
        final(m).sync_pulls.serve.count == old(m).sync_pulls.serve.count.wrapping_add(
            round.pulls.serve.count,
        ),
        final(m).sync_pulls.wait.count == old(m).sync_pulls.wait.count.wrapping_add(
            round.pulls.wait.count,
        ),
{
}

/// A pushed window counts what it refused, declined and skipped where a pulled one
/// does, and what it applied or held already as pushed.
pub proof fn a_pushed_window_counts_as_pushed(m: &mut Metrics, outcome: SyncOutcome)
    requires
        call_ensures(Metrics::record_pushed, (m, &outcome), ()),
    ensures
        final(m).sync_ddl_refused == old(m).sync_ddl_refused.wrapping_add(
            outcome.ddl_refused as u64,
        ),
        final(m).sync_ddl_declined == old(m).sync_ddl_declined.wrapping_add(
            outcome.ddl_declined as u64,
        ),
        final(m).sync_ddl_applied_push == old(m).sync_ddl_applied_push.wrapping_add(
            outcome.ddl as u64,
        ),
        final(m).sync_ddl_held_push == old(m).sync_ddl_held_push.wrapping_add(
            outcome.ddl_held as u64,
        ),
        final(m).sync_ddl_applied_pull == old(m).sync_ddl_applied_pull,
        final(m).sync_ddl_held_pull == old(m).sync_ddl_held_pull,
        final(m).sync_entries_skipped_unknown_collection == old(m).sync_entries_skipped_unknown_collection.wrapping_add(outcome.unknown_collection as u64),
        final(m).sync_entries_skipped_beyond_advertised == old(m).sync_entries_skipped_beyond_advertised.wrapping_add(outcome.deferred as u64),
        final(m).sync_entries_skipped_purge_pending == old(m).sync_entries_skipped_purge_pending.wrapping_add(outcome.purge_pending as u64),
{
}

/// What a batch left counts by its reason.
pub proof fn skipped_entries_count_by_their_reason(
    m: &mut Metrics,
    unknown: u64,
    beyond: u64,
    purging: u64,
)
    requires
        call_ensures(Metrics::record_entries_skipped, (m, unknown, beyond, purging), ()),
    ensures
        final(m).sync_entries_skipped_unknown_collection == old(m).sync_entries_skipped_unknown_collection.wrapping_add(unknown),
        final(m).sync_entries_skipped_beyond_advertised == old(m).sync_entries_skipped_beyond_advertised.wrapping_add(beyond),
        final(m).sync_entries_skipped_purge_pending == old(m).sync_entries_skipped_purge_pending.wrapping_add(purging),
{
}

/// A certificate reload counts once, as it ended.
pub proof fn a_reload_counts_as_it_ended(m: &mut Metrics, succeeded: bool)
    requires
        call_ensures(Metrics::record_tls_reload, (m, succeeded), ()),
    ensures
        succeeded ==> final(m).tls_reloads_ok == old(m).tls_reloads_ok.wrapping_add(1)
            && final(m).tls_reloads_failed == old(m).tls_reloads_failed,
        !succeeded ==> final(m).tls_reloads_failed == old(m).tls_reloads_failed.wrapping_add(1)
            && final(m).tls_reloads_ok == old(m).tls_reloads_ok,
{
}

/// A refresh of the signing keys counts once, as it ended.
pub proof fn a_refresh_counts_as_it_ended(m: &mut Metrics, succeeded: bool)
    requires
        call_ensures(Metrics::record_jwks_refresh, (m, succeeded), ()),
    ensures
        succeeded ==> final(m).jwks_refresh_ok == old(m).jwks_refresh_ok.wrapping_add(1)
            && final(m).jwks_refresh_failed == old(m).jwks_refresh_failed,
        !succeeded ==> final(m).jwks_refresh_failed == old(m).jwks_refresh_failed.wrapping_add(1)
            && final(m).jwks_refresh_ok == old(m).jwks_refresh_ok,
{
}

/// The writers this node runs are those started, whatever a later call says.
pub proof fn the_first_set_of_writers_stays(m: &mut Metrics, started: Vec<&str>, i: int)
    requires
        call_ensures(Metrics::fix_progress_writers, (m, &started), ()),
        0 <= i < 5,
    ensures
        final(m).progress_writers is Some,
        old(m).progress_writers is Some ==> final(m).progress_writers == old(m).progress_writers,
        old(m).progress_writers is None ==> final(m).progress_writers->0@[i] == exists|k: int|
            0 <= k < started@.len() && #[trigger] started@[k]@ == PROGRESS_WRITERS@[i]@,
{
    if old(m).progress_writers is None {
        assert(crate::metrics::runs_started(final(m).progress_writers->0@, started@));
    }
}

/// A process counts from nothing.
pub proof fn a_process_counts_from_nothing(started: u64, m: Metrics, i: int)
    requires
        call_ensures(Metrics::new, (started,), m),
    ensures
        m.started == started,
        0 <= i < 12 ==> m.latency_buckets@[i] == 0 && m.ddl_confirmations@[i] == 0,
        0 <= i < 10 ==> m.backup_buckets@[i] == 0,
        0 <= i < 16 ==> m.sync_pulls.serve.buckets@[i] == 0 && m.sync_pulls.wait.buckets@[i] == 0
            && m.sync_pulls.apply.buckets@[i] == 0,
        0 <= i < 11 ==> m.sync_pulls.entry_wait.buckets@[i] == 0,
        0 <= i < 4 ==> m.sync_pulls.contacts@[i] == 0,
        m.sync_pulls.entries == 0,
        m.sync_pulls.entry_wait_ahead == 0,
        m.sync_pulls.serve.count == 0 && m.sync_pulls.serve.sum_us == 0,
        m.sync_pulls.wait.count == 0 && m.sync_pulls.wait.sum_us == 0,
        m.sync_pulls.apply.count == 0 && m.sync_pulls.apply.sum_us == 0,
        m.sync_pulls.entry_wait.count == 0 && m.sync_pulls.entry_wait.sum_us == 0,
        m.sync_divergence_last_check is None,
        m.stall_probe_progress is None,
        m.dispatcher_progress is None,
        m.replication_progress is None,
        m.progress_writers is None,
        m.latency_sum_us == 0,
        m.latency_count == 0,
        m.backup_sum_us == 0,
        m.replication_lag_ms == 0,
        m.sync_failures == 0,
        m.sync_peers_backing_off == 0,
        m.sync_ddl_refused == 0,
        m.sync_ddl_declined == 0,
        m.sync_ddl_applied_pull == 0,
        m.sync_ddl_applied_push == 0,
        m.sync_ddl_held_pull == 0,
        m.sync_ddl_held_push == 0,
        m.ddl_confirm_pushes == 0,
        m.sync_divergent_collections == 0,
        m.sync_divergence_checks == 0,
        m.sync_divergence_skips == 0,
        m.sync_divergence_count_compared == 0,
        m.sync_divergence_count_deferred == 0,
        m.sync_entries_skipped_unknown_collection == 0,
        m.sync_entries_skipped_beyond_advertised == 0,
        m.sync_entries_skipped_purge_pending == 0,
        m.sync_repair_rounds == 0,
        m.runtime_stall_us == 0,
        m.runtime_stall_otlp_us == 0,
        m.requests == 0,
        m.responses_2xx == 0,
        m.responses_4xx == 0,
        m.responses_5xx == 0,
        m.authz_denied == 0,
        m.auth_failures == 0,
        m.rate_limited == 0,
        m.rate_limited_principal == 0,
        m.backups == 0,
        m.webhook_delivered == 0,
        m.webhook_failed == 0,
        m.webhook_events == 0,
        m.webhook_backlog_secs == 0,
        m.tls_reloads_ok == 0,
        m.tls_reloads_failed == 0,
        m.jwks_refresh_ok == 0,
        m.jwks_refresh_failed == 0,
        m.ttl_expired == 0,
        m.ttl_skipped == 0,
        m.ttl_skipped_filter == 0,
{
    assert(m.fresh(started));
}

} // verus!
