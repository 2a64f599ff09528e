//! Each value of a snapshot stands on the page behind its own name, in the unit the
//! name says.

use vstd::prelude::*;
use vstd::string::*;

use super::help;
use super::help_lines::{
    lemma_writer_wait_help,
    lemma_writer_hold_help,
    lemma_hold_decomposition_help,
    lemma_engine_help,
    lemma_process_help,
    lemma_request_help,
    lemma_webhook_help,
    lemma_confirmation_help,
    lemma_sync_help,
    lemma_embed_help,
    lemma_latency_help,
    lemma_backup_duration_help,
    lemma_sync_pulls_help,
    lemma_sync_serve_help,
};
use super::lines::{
    a_count_is_a_number, a_fraction_is_a_number, a_header_is_two_comments, a_sample_is_one_line,
    goes_on, is_name, one_line, parseable,
};
use super::page::{
    backup_duration, confirmation_section, embed_section, engine_section, header, histogram,
    hold_decomposition, latency, page, process_section, request_section, sync_pulls, sync_section, sync_serve,
    webhook_section, writer_hold, writer_wait,
};
use super::row_values::{
    has_ages, has_components, has_confirmations, has_estimates, has_histogram_of, has_holds,
    has_io_of, has_overcounts, has_phases, has_retries, has_value, lemma_component_values,
    lemma_outcome_values, lemma_estimated_values, lemma_histogram_values, lemma_hold_values,
    lemma_io_values, lemma_overcounted_values, lemma_phase_values, lemma_progress_values,
    lemma_task_values,
};
use super::{
    HoldDecomposition, LiveReadings, Metrics, MetricsSnapshot, PullHistogram, PullReport, ServeSnapshot,
    StorageReadings, WriterHoldSnapshot, WriterWaitSnapshot, BACKUP_BUCKETS_US,
    ENTRY_WAIT_BUCKETS_US, LATENCY_BUCKETS_US, PULL_BUCKETS_US, SERVE_WALK_BUCKETS_US,
    WRITER_WAIT_BUCKETS_US,
};
use crate::text::{decimal, fixed_point};

verus! {

broadcast group group_values {
    a_header_is_two_comments,
    a_sample_is_one_line,
    a_count_is_a_number,
    a_fraction_is_a_number,
    lemma_histogram_values,
    lemma_hold_values,
    lemma_component_values,
    lemma_phase_values,
    lemma_io_values,
    lemma_estimated_values,
    lemma_overcounted_values,
    lemma_task_values,
    lemma_progress_values,
    lemma_outcome_values,
}

/// The values on how long writes waited for the storage writer, each behind its own name.
pub open spec fn shows_writer_wait(
    text: Seq<char>,
    wait: WriterWaitSnapshot,
) -> bool {
    &&& has_histogram_of(
        text,
        "kimmy_write_lock_wait_seconds"@,
        ""@,
        WRITER_WAIT_BUCKETS_US@,
        wait.buckets@,
        wait.count,
        wait.sum_us,
    )
}

pub broadcast proof fn lemma_writer_wait_values(
    out: Seq<char>,
    wait: WriterWaitSnapshot,
)
    requires
        parseable(out),
    ensures
        goes_on(out, #[trigger] writer_wait(out, wait)),
        shows_writer_wait(writer_wait(out, wait), wait),
{
    reveal(writer_wait);
    broadcast use group_values;

    lemma_writer_wait_help();
    assert({
        &&& is_name("kimmy_write_lock_wait_seconds"@)
        &&& one_line("histogram"@)
        &&& one_line(""@)
    }) by {
        reveal_strlit("kimmy_write_lock_wait_seconds");
        reveal_strlit("histogram");
        reveal_strlit("");
        reveal(is_name);
        reveal(one_line);
    }
}

/// The values on how long each holder held the storage writer, each behind its own name.
pub open spec fn shows_writer_hold(
    text: Seq<char>,
    hold: WriterHoldSnapshot,
) -> bool {
    &&& has_holds(text, hold, 12)
}

pub broadcast proof fn lemma_writer_hold_values(
    out: Seq<char>,
    hold: WriterHoldSnapshot,
)
    requires
        parseable(out),
    ensures
        goes_on(out, #[trigger] writer_hold(out, hold)),
        shows_writer_hold(writer_hold(out, hold), hold),
{
    reveal(writer_hold);
    broadcast use group_values;

    lemma_writer_hold_help();
    assert({
        &&& is_name("kimmy_write_lock_held_seconds"@)
        &&& one_line("histogram"@)
    }) by {
        reveal_strlit("kimmy_write_lock_held_seconds");
        reveal_strlit("histogram");
        reveal(is_name);
        reveal(one_line);
    }
}

/// The values on what holding the storage writer was spent on, each behind its own name.
pub open spec fn shows_hold_decomposition(
    text: Seq<char>,
    d: HoldDecomposition,
) -> bool {
    &&& has_components(text, d, 12)
    &&& has_phases(text, d, 12)
    &&& has_io_of(text, d, 12)
    &&& has_estimates(text, d, 12)
    &&& has_overcounts(text, d, 12)
    &&& has_value(text, "kimmy_write_lock_held_cpu_unmeasured_total"@, decimal(d.cpu_unmeasured as nat))
}

pub broadcast proof fn lemma_hold_decomposition_values(
    out: Seq<char>,
    d: HoldDecomposition,
)
    requires
        parseable(out),
    ensures
        goes_on(out, #[trigger] hold_decomposition(out, d)),
        shows_hold_decomposition(hold_decomposition(out, d), d),
{
    reveal(hold_decomposition);
    broadcast use group_values;

    lemma_hold_decomposition_help();
    assert({
        &&& is_name("kimmy_write_lock_held_component_seconds_total"@)
        &&& one_line("counter"@)
        &&& is_name("kimmy_write_lock_held_phase_seconds_total"@)
        &&& is_name("kimmy_write_lock_held_io_bytes_total"@)
        &&& is_name("kimmy_write_lock_held_write_estimated_seconds_total"@)
        &&& is_name("kimmy_write_lock_held_overcounted_total"@)
        &&& is_name("kimmy_write_lock_held_cpu_unmeasured_total"@)
    }) by {
        reveal_strlit("kimmy_write_lock_held_component_seconds_total");
        reveal_strlit("counter");
        reveal_strlit("kimmy_write_lock_held_phase_seconds_total");
        reveal_strlit("kimmy_write_lock_held_io_bytes_total");
        reveal_strlit("kimmy_write_lock_held_write_estimated_seconds_total");
        reveal_strlit("kimmy_write_lock_held_overcounted_total");
        reveal_strlit("kimmy_write_lock_held_cpu_unmeasured_total");
        reveal(is_name);
        reveal(one_line);
    }
}

/// The values on the storage engine, each behind its own name.
#[verifier::opaque]
pub open spec fn shows_engine(
    text: Seq<char>,
    s: MetricsSnapshot,
    wait: WriterWaitSnapshot,
    hold: WriterHoldSnapshot,
) -> bool {
    &&& has_value(text, "kimmy_databases"@, decimal(s.databases as nat))
    &&& has_value(text, "kimmy_collections"@, decimal(s.collections as nat))
    &&& has_value(text, "kimmy_unique_violations"@, decimal(s.unique_violations as nat))
    &&& has_value(text, "kimmy_commits"@, decimal(s.commits as nat))
    &&& has_value(text, "kimmy_fsyncs"@, decimal(s.fsyncs as nat))
    &&& has_value(text, "kimmy_commits_grouped_total"@, decimal(s.commits_grouped as nat))
    &&& shows_writer_wait(text, wait)
    &&& has_value(text, "kimmy_write_lock_wait_timeouts_total"@, decimal(s.write_lock_wait_timeouts as nat))
    &&& has_value(text, "kimmy_write_lock_held_seconds_max"@, fixed_point(s.write_lock_held_max_us as nat, 6))
    &&& shows_writer_hold(text, hold)
    &&& shows_hold_decomposition(text, s.write_lock_hold)
}

pub broadcast proof fn lemma_engine_values(
    out: Seq<char>,
    s: MetricsSnapshot,
    wait: WriterWaitSnapshot,
    hold: WriterHoldSnapshot,
)
    requires
        parseable(out),
    ensures
        goes_on(out, #[trigger] engine_section(out, s, wait, hold)),
        shows_engine(engine_section(out, s, wait, hold), s, wait, hold),
{
    reveal(engine_section);
    reveal(shows_engine);
    broadcast use group_values;
    broadcast use {lemma_writer_wait_values, lemma_writer_hold_values, lemma_hold_decomposition_values};

    lemma_engine_help();
    assert({
        &&& is_name("kimmy_databases"@)
        &&& one_line("gauge"@)
        &&& is_name("kimmy_collections"@)
        &&& is_name("kimmy_unique_violations"@)
        &&& one_line("counter"@)
        &&& is_name("kimmy_commits"@)
        &&& is_name("kimmy_fsyncs"@)
        &&& is_name("kimmy_commits_grouped_total"@)
        &&& is_name("kimmy_write_lock_wait_timeouts_total"@)
        &&& is_name("kimmy_write_lock_held_seconds_max"@)
    }) by {
        reveal_strlit("kimmy_databases");
        reveal_strlit("gauge");
        reveal_strlit("kimmy_collections");
        reveal_strlit("kimmy_unique_violations");
        reveal_strlit("counter");
        reveal_strlit("kimmy_commits");
        reveal_strlit("kimmy_fsyncs");
        reveal_strlit("kimmy_commits_grouped_total");
        reveal_strlit("kimmy_write_lock_wait_timeouts_total");
        reveal_strlit("kimmy_write_lock_held_seconds_max");
        reveal(is_name);
        reveal(one_line);
    }
}

proof fn lemma_engine_values_kept(
    before: Seq<char>,
    after: Seq<char>,
    s: MetricsSnapshot,
    wait: WriterWaitSnapshot,
    hold: WriterHoldSnapshot,
)
    requires
        goes_on(before, after),
        shows_engine(before, s, wait, hold),
    ensures
        shows_engine(after, s, wait, hold),
{
    reveal(shows_engine);
}

/// The values on the process and its tasks, each behind its own name.
#[verifier::opaque]
pub open spec fn shows_process(
    text: Seq<char>,
    s: MetricsSnapshot,
    retries: Seq<u64>,
) -> bool {
    &&& has_value(text, "kimmy_storage_bytes"@, decimal(s.storage_bytes as nat))
    &&& has_value(text, "kimmy_vector_index_cache_bytes"@, decimal(s.vector_index_cache_bytes as nat))
    &&& has_value(text, "kimmy_process_resident_bytes"@, decimal(s.process_resident_bytes as nat))
    &&& has_value(text, "kimmy_process_resident_peak_bytes"@, decimal(s.process_resident_peak_bytes as nat))
    &&& has_value(text, "kimmy_up"@, decimal(1))
    &&& has_value(text, "kimmy_uptime_seconds"@, decimal(s.uptime_secs as nat))
    &&& has_retries(text, retries, 16)
    &&& has_ages(text, s.task_progress_age_secs@, 5)
    &&& has_value(text, "kimmy_runtime_stall_seconds"@, fixed_point(s.runtime_stall_us as nat, 6))
}

pub broadcast proof fn lemma_process_values(
    out: Seq<char>,
    s: MetricsSnapshot,
    retries: Seq<u64>,
)
    requires
        parseable(out),
    ensures
        goes_on(out, #[trigger] process_section(out, s, retries)),
        shows_process(process_section(out, s, retries), s, retries),
{
    reveal(process_section);
    reveal(shows_process);
    broadcast use group_values;

    lemma_process_help();
    assert({
        &&& is_name("kimmy_storage_bytes"@)
        &&& one_line("gauge"@)
        &&& is_name("kimmy_vector_index_cache_bytes"@)
        &&& is_name("kimmy_process_resident_bytes"@)
        &&& is_name("kimmy_process_resident_peak_bytes"@)
        &&& is_name("kimmy_up"@)
        &&& is_name("kimmy_uptime_seconds"@)
        &&& is_name("kimmy_task_retries_total"@)
        &&& one_line("counter"@)
        &&& is_name("kimmy_task_progress_age_seconds"@)
        &&& is_name("kimmy_runtime_stall_seconds"@)
    }) by {
        reveal_strlit("kimmy_storage_bytes");
        reveal_strlit("gauge");
        reveal_strlit("kimmy_vector_index_cache_bytes");
        reveal_strlit("kimmy_process_resident_bytes");
        reveal_strlit("kimmy_process_resident_peak_bytes");
        reveal_strlit("kimmy_up");
        reveal_strlit("kimmy_uptime_seconds");
        reveal_strlit("kimmy_task_retries_total");
        reveal_strlit("counter");
        reveal_strlit("kimmy_task_progress_age_seconds");
        reveal_strlit("kimmy_runtime_stall_seconds");
        reveal(is_name);
        reveal(one_line);
    }
}

proof fn lemma_process_values_kept(
    before: Seq<char>,
    after: Seq<char>,
    s: MetricsSnapshot,
    retries: Seq<u64>,
)
    requires
        goes_on(before, after),
        shows_process(before, s, retries),
    ensures
        shows_process(after, s, retries),
{
    reveal(shows_process);
}

/// The values on requests, authorisation and expiry, each behind its own name.
#[verifier::opaque]
pub open spec fn shows_request(
    text: Seq<char>,
    s: MetricsSnapshot,
) -> bool {
    &&& has_value(text, "kimmy_requests_total"@, decimal(s.requests as nat))
    &&& has_value(text, "kimmy_responses_total{class=\"2xx\"}"@, decimal(s.responses_2xx as nat))
    &&& has_value(text, "kimmy_responses_total{class=\"4xx\"}"@, decimal(s.responses_4xx as nat))
    &&& has_value(text, "kimmy_responses_total{class=\"5xx\"}"@, decimal(s.responses_5xx as nat))
    &&& has_value(text, "kimmy_authz_denied_total"@, decimal(s.authz_denied as nat))
    &&& has_value(text, "kimmy_auth_failures_total"@, decimal(s.auth_failures as nat))
    &&& has_value(text, "kimmy_rate_limited_total"@, decimal(s.rate_limited as nat))
    &&& has_value(text, "kimmy_rate_limited_principal_total"@, decimal(s.rate_limited_principal as nat))
    &&& has_value(text, "kimmy_backups_total"@, decimal(s.backups as nat))
    &&& has_value(text, "kimmy_ttl_expired_total"@, decimal(s.ttl_expired as nat))
    &&& has_value(text, "kimmy_ttl_skipped_total"@, decimal(s.ttl_skipped as nat))
    &&& has_value(text, "kimmy_ttl_skipped_filter_total"@, decimal(s.ttl_skipped_filter as nat))
    &&& has_value(text, "kimmy_index_unkeyed_total"@, decimal(s.index_unkeyed as nat))
    &&& has_value(text, "kimmy_index_undecidable_total"@, decimal(s.index_undecidable as nat))
}

pub broadcast proof fn lemma_request_values(
    out: Seq<char>,
    s: MetricsSnapshot,
)
    requires
        parseable(out),
    ensures
        goes_on(out, #[trigger] request_section(out, s)),
        shows_request(request_section(out, s), s),
{
    reveal(request_section);
    reveal(shows_request);
    broadcast use group_values;

    lemma_request_help();
    assert({
        &&& is_name("kimmy_requests_total"@)
        &&& one_line("counter"@)
        &&& is_name("kimmy_responses_total"@)
        &&& is_name("kimmy_responses_total{class=\"2xx\"}"@)
        &&& is_name("kimmy_responses_total{class=\"4xx\"}"@)
        &&& is_name("kimmy_responses_total{class=\"5xx\"}"@)
        &&& is_name("kimmy_authz_denied_total"@)
        &&& is_name("kimmy_auth_failures_total"@)
        &&& is_name("kimmy_rate_limited_total"@)
        &&& is_name("kimmy_rate_limited_principal_total"@)
        &&& is_name("kimmy_backups_total"@)
        &&& is_name("kimmy_ttl_expired_total"@)
        &&& is_name("kimmy_ttl_skipped_total"@)
        &&& is_name("kimmy_ttl_skipped_filter_total"@)
        &&& is_name("kimmy_index_unkeyed_total"@)
        &&& is_name("kimmy_index_undecidable_total"@)
    }) by {
        reveal_strlit("kimmy_requests_total");
        reveal_strlit("counter");
        reveal_strlit("kimmy_responses_total");
        reveal_strlit("kimmy_responses_total{class=\"2xx\"}");
        reveal_strlit("kimmy_responses_total{class=\"4xx\"}");
        reveal_strlit("kimmy_responses_total{class=\"5xx\"}");
        reveal_strlit("kimmy_authz_denied_total");
        reveal_strlit("kimmy_auth_failures_total");
        reveal_strlit("kimmy_rate_limited_total");
        reveal_strlit("kimmy_rate_limited_principal_total");
        reveal_strlit("kimmy_backups_total");
        reveal_strlit("kimmy_ttl_expired_total");
        reveal_strlit("kimmy_ttl_skipped_total");
        reveal_strlit("kimmy_ttl_skipped_filter_total");
        reveal_strlit("kimmy_index_unkeyed_total");
        reveal_strlit("kimmy_index_undecidable_total");
        reveal(is_name);
        reveal(one_line);
    }
}

proof fn lemma_request_values_kept(
    before: Seq<char>,
    after: Seq<char>,
    s: MetricsSnapshot,
)
    requires
        goes_on(before, after),
        shows_request(before, s),
    ensures
        shows_request(after, s),
{
    reveal(shows_request);
}

/// The values on webhooks and the cluster, each behind its own name.
#[verifier::opaque]
pub open spec fn shows_webhook(
    text: Seq<char>,
    s: MetricsSnapshot,
) -> bool {
    &&& has_value(text, "kimmy_webhook_deliveries_total{outcome=\"delivered\"}"@, decimal(s.webhook_delivered as nat))
    &&& has_value(text, "kimmy_webhook_deliveries_total{outcome=\"failed\"}"@, decimal(s.webhook_failed as nat))
    &&& has_value(text, "kimmy_webhook_events_total"@, decimal(s.webhook_events as nat))
    &&& has_value(text, "kimmy_webhook_subscriptions{state=\"active\"}"@, decimal(s.webhook_active as nat))
    &&& has_value(text, "kimmy_webhook_subscriptions{state=\"invalidated\"}"@, decimal(s.webhook_invalidated as nat))
    &&& has_value(text, "kimmy_webhook_subscriptions{state=\"unreadable\"}"@, decimal(s.webhook_unreadable as nat))
    &&& has_value(text, "kimmy_webhook_backlog_seconds"@, decimal(s.webhook_backlog_secs as nat))
    &&& has_value(text, "kimmy_cluster_members"@, decimal(s.cluster_members as nat))
    &&& has_value(text, "kimmy_replication_lag_seconds"@, fixed_point(s.replication_lag_ms as nat, 3))
    &&& has_value(text, "kimmy_sync_failures_total"@, decimal(s.sync_failures as nat))
    &&& has_value(text, "kimmy_sync_peers_backing_off"@, decimal(s.sync_peers_backing_off as nat))
    &&& has_value(text, "kimmy_sync_ddl_refused_total"@, decimal(s.sync_ddl_refused as nat))
    &&& has_value(text, "kimmy_sync_ddl_declined_total"@, decimal(s.sync_ddl_declined as nat))
    &&& has_value(text, "kimmy_sync_ddl_applied_total{via=\"pull\"}"@, decimal(s.sync_ddl_applied_pull as nat))
    &&& has_value(text, "kimmy_sync_ddl_applied_total{via=\"push\"}"@, decimal(s.sync_ddl_applied_push as nat))
    &&& has_value(text, "kimmy_sync_ddl_held_total{via=\"pull\"}"@, decimal(s.sync_ddl_held_pull as nat))
    &&& has_value(text, "kimmy_sync_ddl_held_total{via=\"push\"}"@, decimal(s.sync_ddl_held_push as nat))
}

pub broadcast proof fn lemma_webhook_values(
    out: Seq<char>,
    s: MetricsSnapshot,
)
    requires
        parseable(out),
    ensures
        goes_on(out, #[trigger] webhook_section(out, s)),
        shows_webhook(webhook_section(out, s), s),
{
    reveal(webhook_section);
    reveal(shows_webhook);
    broadcast use group_values;

    lemma_webhook_help();
    assert({
        &&& is_name("kimmy_webhook_deliveries_total"@)
        &&& one_line("counter"@)
        &&& is_name("kimmy_webhook_deliveries_total{outcome=\"delivered\"}"@)
        &&& is_name("kimmy_webhook_deliveries_total{outcome=\"failed\"}"@)
        &&& is_name("kimmy_webhook_events_total"@)
        &&& is_name("kimmy_webhook_subscriptions"@)
        &&& one_line("gauge"@)
        &&& is_name("kimmy_webhook_subscriptions{state=\"active\"}"@)
        &&& is_name("kimmy_webhook_subscriptions{state=\"invalidated\"}"@)
        &&& is_name("kimmy_webhook_subscriptions{state=\"unreadable\"}"@)
        &&& is_name("kimmy_webhook_backlog_seconds"@)
        &&& is_name("kimmy_cluster_members"@)
        &&& is_name("kimmy_replication_lag_seconds"@)
        &&& is_name("kimmy_sync_failures_total"@)
        &&& is_name("kimmy_sync_peers_backing_off"@)
        &&& is_name("kimmy_sync_ddl_refused_total"@)
        &&& is_name("kimmy_sync_ddl_declined_total"@)
        &&& is_name("kimmy_sync_ddl_applied_total"@)
        &&& is_name("kimmy_sync_ddl_applied_total{via=\"pull\"}"@)
        &&& is_name("kimmy_sync_ddl_applied_total{via=\"push\"}"@)
        &&& is_name("kimmy_sync_ddl_held_total"@)
        &&& is_name("kimmy_sync_ddl_held_total{via=\"pull\"}"@)
        &&& is_name("kimmy_sync_ddl_held_total{via=\"push\"}"@)
    }) by {
        reveal_strlit("kimmy_webhook_deliveries_total");
        reveal_strlit("counter");
        reveal_strlit("kimmy_webhook_deliveries_total{outcome=\"delivered\"}");
        reveal_strlit("kimmy_webhook_deliveries_total{outcome=\"failed\"}");
        reveal_strlit("kimmy_webhook_events_total");
        reveal_strlit("kimmy_webhook_subscriptions");
        reveal_strlit("gauge");
        reveal_strlit("kimmy_webhook_subscriptions{state=\"active\"}");
        reveal_strlit("kimmy_webhook_subscriptions{state=\"invalidated\"}");
        reveal_strlit("kimmy_webhook_subscriptions{state=\"unreadable\"}");
        reveal_strlit("kimmy_webhook_backlog_seconds");
        reveal_strlit("kimmy_cluster_members");
        reveal_strlit("kimmy_replication_lag_seconds");
        reveal_strlit("kimmy_sync_failures_total");
        reveal_strlit("kimmy_sync_peers_backing_off");
        reveal_strlit("kimmy_sync_ddl_refused_total");
        reveal_strlit("kimmy_sync_ddl_declined_total");
        reveal_strlit("kimmy_sync_ddl_applied_total");
        reveal_strlit("kimmy_sync_ddl_applied_total{via=\"pull\"}");
        reveal_strlit("kimmy_sync_ddl_applied_total{via=\"push\"}");
        reveal_strlit("kimmy_sync_ddl_held_total");
        reveal_strlit("kimmy_sync_ddl_held_total{via=\"pull\"}");
        reveal_strlit("kimmy_sync_ddl_held_total{via=\"push\"}");
        reveal(is_name);
        reveal(one_line);
    }
}

proof fn lemma_webhook_values_kept(
    before: Seq<char>,
    after: Seq<char>,
    s: MetricsSnapshot,
)
    requires
        goes_on(before, after),
        shows_webhook(before, s),
    ensures
        shows_webhook(after, s),
{
    reveal(shows_webhook);
}

/// The values on schema-change confirmations and divergence, each behind its own name.
#[verifier::opaque]
pub open spec fn shows_confirmation(
    text: Seq<char>,
    s: MetricsSnapshot,
) -> bool {
    &&& has_confirmations(text, s.ddl_confirmations@, 12)
    &&& has_value(text, "kimmy_ddl_confirm_pushes_total"@, decimal(s.ddl_confirm_pushes as nat))
    &&& has_value(text, "kimmy_sync_ddl_relogged_total"@, decimal(s.sync_ddl_relogged as nat))
    &&& has_value(text, "kimmy_sync_divergent_collections"@, decimal(s.sync_divergent_collections as nat))
    &&& has_value(text, "kimmy_sync_divergence_checks_total{outcome=\"ran\"}"@, decimal(s.sync_divergence_checks as nat))
    &&& has_value(text, "kimmy_sync_divergence_checks_total{outcome=\"skipped\"}"@, decimal(s.sync_divergence_skips as nat))
    &&& has_value(text, "kimmy_sync_divergence_count_probes_total{outcome=\"compared\"}"@, decimal(s.sync_divergence_count_compared as nat))
    &&& has_value(text, "kimmy_sync_divergence_count_probes_total{outcome=\"deferred\"}"@, decimal(s.sync_divergence_count_deferred as nat))
    &&& has_value(text, "kimmy_sync_divergence_check_age_seconds"@, decimal(s.sync_divergence_check_age_secs as nat))
}

pub broadcast proof fn lemma_confirmation_values(
    out: Seq<char>,
    s: MetricsSnapshot,
)
    requires
        parseable(out),
    ensures
        goes_on(out, #[trigger] confirmation_section(out, s)),
        shows_confirmation(confirmation_section(out, s), s),
{
    reveal(confirmation_section);
    reveal(shows_confirmation);
    broadcast use group_values;

    lemma_confirmation_help();
    assert({
        &&& is_name("kimmy_ddl_confirmations_total"@)
        &&& one_line("counter"@)
        &&& is_name("kimmy_ddl_confirm_pushes_total"@)
        &&& is_name("kimmy_sync_ddl_relogged_total"@)
        &&& is_name("kimmy_sync_divergent_collections"@)
        &&& one_line("gauge"@)
        &&& is_name("kimmy_sync_divergence_checks_total"@)
        &&& is_name("kimmy_sync_divergence_checks_total{outcome=\"ran\"}"@)
        &&& is_name("kimmy_sync_divergence_checks_total{outcome=\"skipped\"}"@)
        &&& is_name("kimmy_sync_divergence_count_probes_total"@)
        &&& is_name("kimmy_sync_divergence_count_probes_total{outcome=\"compared\"}"@)
        &&& is_name("kimmy_sync_divergence_count_probes_total{outcome=\"deferred\"}"@)
        &&& is_name("kimmy_sync_divergence_check_age_seconds"@)
    }) by {
        reveal_strlit("kimmy_ddl_confirmations_total");
        reveal_strlit("counter");
        reveal_strlit("kimmy_ddl_confirm_pushes_total");
        reveal_strlit("kimmy_sync_ddl_relogged_total");
        reveal_strlit("kimmy_sync_divergent_collections");
        reveal_strlit("gauge");
        reveal_strlit("kimmy_sync_divergence_checks_total");
        reveal_strlit("kimmy_sync_divergence_checks_total{outcome=\"ran\"}");
        reveal_strlit("kimmy_sync_divergence_checks_total{outcome=\"skipped\"}");
        reveal_strlit("kimmy_sync_divergence_count_probes_total");
        reveal_strlit("kimmy_sync_divergence_count_probes_total{outcome=\"compared\"}");
        reveal_strlit("kimmy_sync_divergence_count_probes_total{outcome=\"deferred\"}");
        reveal_strlit("kimmy_sync_divergence_check_age_seconds");
        reveal(is_name);
        reveal(one_line);
    }
}

proof fn lemma_confirmation_values_kept(
    before: Seq<char>,
    after: Seq<char>,
    s: MetricsSnapshot,
)
    requires
        goes_on(before, after),
        shows_confirmation(before, s),
    ensures
        shows_confirmation(after, s),
{
    reveal(shows_confirmation);
}

/// The values on pulled entries and contacts, each behind its own name.
#[verifier::opaque]
pub open spec fn shows_sync(
    text: Seq<char>,
    s: MetricsSnapshot,
) -> bool {
    &&& has_value(text, "kimmy_sync_entries_skipped_total{reason=\"unknown_collection\"}"@, decimal(s.sync_entries_skipped_unknown_collection as nat))
    &&& has_value(text, "kimmy_sync_entries_skipped_total{reason=\"beyond_advertised\"}"@, decimal(s.sync_entries_skipped_beyond_advertised as nat))
    &&& has_value(text, "kimmy_sync_entries_skipped_total{reason=\"purge_pending\"}"@, decimal(s.sync_entries_skipped_purge_pending as nat))
    &&& has_value(text, "kimmy_sync_held_marks_released_total"@, decimal(s.sync_held_marks_released as nat))
    &&& has_value(text, "kimmy_sync_held_marks"@, decimal(s.sync_held_marks as nat))
    &&& has_value(text, "kimmy_sync_repair_rounds_total"@, decimal(s.sync_repair_rounds as nat))
    &&& has_value(text, "kimmy_sync_pulled_entries_total"@, decimal(s.sync_pulls.entries as nat))
    &&& has_value(text, "kimmy_sync_entry_wait_ahead_total"@, decimal(s.sync_pulls.entry_wait_ahead as nat))
    &&& has_value(text, "kimmy_sync_contacts_total{ended=\"caught_up\"}"@, decimal(s.sync_pulls.contacts@[0] as nat))
    &&& has_value(text, "kimmy_sync_contacts_total{ended=\"budget\"}"@, decimal(s.sync_pulls.contacts@[1] as nat))
    &&& has_value(text, "kimmy_sync_contacts_total{ended=\"ceiling\"}"@, decimal(s.sync_pulls.contacts@[2] as nat))
    &&& has_value(text, "kimmy_sync_contacts_total{ended=\"failed\"}"@, decimal(s.sync_pulls.contacts@[3] as nat))
}

pub broadcast proof fn lemma_sync_values(
    out: Seq<char>,
    s: MetricsSnapshot,
)
    requires
        parseable(out),
    ensures
        goes_on(out, #[trigger] sync_section(out, s)),
        shows_sync(sync_section(out, s), s),
{
    reveal(sync_section);
    reveal(shows_sync);
    broadcast use group_values;

    lemma_sync_help();
    assert({
        &&& is_name("kimmy_sync_entries_skipped_total"@)
        &&& one_line("counter"@)
        &&& is_name("kimmy_sync_entries_skipped_total{reason=\"unknown_collection\"}"@)
        &&& is_name("kimmy_sync_entries_skipped_total{reason=\"beyond_advertised\"}"@)
        &&& is_name("kimmy_sync_entries_skipped_total{reason=\"purge_pending\"}"@)
        &&& is_name("kimmy_sync_held_marks_released_total"@)
        &&& is_name("kimmy_sync_held_marks"@)
        &&& one_line("gauge"@)
        &&& is_name("kimmy_sync_repair_rounds_total"@)
        &&& is_name("kimmy_sync_pulled_entries_total"@)
        &&& is_name("kimmy_sync_entry_wait_ahead_total"@)
        &&& is_name("kimmy_sync_contacts_total"@)
        &&& is_name("kimmy_sync_contacts_total{ended=\"caught_up\"}"@)
        &&& is_name("kimmy_sync_contacts_total{ended=\"budget\"}"@)
        &&& is_name("kimmy_sync_contacts_total{ended=\"ceiling\"}"@)
        &&& is_name("kimmy_sync_contacts_total{ended=\"failed\"}"@)
    }) by {
        reveal_strlit("kimmy_sync_entries_skipped_total");
        reveal_strlit("counter");
        reveal_strlit("kimmy_sync_entries_skipped_total{reason=\"unknown_collection\"}");
        reveal_strlit("kimmy_sync_entries_skipped_total{reason=\"beyond_advertised\"}");
        reveal_strlit("kimmy_sync_entries_skipped_total{reason=\"purge_pending\"}");
        reveal_strlit("kimmy_sync_held_marks_released_total");
        reveal_strlit("kimmy_sync_held_marks");
        reveal_strlit("gauge");
        reveal_strlit("kimmy_sync_repair_rounds_total");
        reveal_strlit("kimmy_sync_pulled_entries_total");
        reveal_strlit("kimmy_sync_entry_wait_ahead_total");
        reveal_strlit("kimmy_sync_contacts_total");
        reveal_strlit("kimmy_sync_contacts_total{ended=\"caught_up\"}");
        reveal_strlit("kimmy_sync_contacts_total{ended=\"budget\"}");
        reveal_strlit("kimmy_sync_contacts_total{ended=\"ceiling\"}");
        reveal_strlit("kimmy_sync_contacts_total{ended=\"failed\"}");
        reveal(is_name);
        reveal(one_line);
    }
}

proof fn lemma_sync_values_kept(
    before: Seq<char>,
    after: Seq<char>,
    s: MetricsSnapshot,
)
    requires
        goes_on(before, after),
        shows_sync(before, s),
    ensures
        shows_sync(after, s),
{
    reveal(shows_sync);
}

/// The values on certificates, keys and embedding, each behind its own name.
#[verifier::opaque]
pub open spec fn shows_embed(
    text: Seq<char>,
    s: MetricsSnapshot,
) -> bool {
    &&& has_value(text, "kimmy_tls_reloads_total{outcome=\"ok\"}"@, decimal(s.tls_reloads_ok as nat))
    &&& has_value(text, "kimmy_tls_reloads_total{outcome=\"failed\"}"@, decimal(s.tls_reloads_failed as nat))
    &&& has_value(text, "kimmy_jwks_refresh_total{outcome=\"ok\"}"@, decimal(s.jwks_refresh_ok as nat))
    &&& has_value(text, "kimmy_jwks_refresh_total{outcome=\"failed\"}"@, decimal(s.jwks_refresh_failed as nat))
    &&& has_value(text, "kimmy_embed_documents_total"@, decimal(s.embed_documents_embedded as nat))
    &&& has_value(text, "kimmy_embed_chunks_total"@, decimal(s.embed_chunks_embedded as nat))
    &&& has_value(text, "kimmy_embed_deferred_total"@, decimal(s.embed_deferred as nat))
    &&& has_value(text, "kimmy_embed_skipped_not_owned_total"@, decimal(s.embed_skipped_not_owned as nat))
    &&& has_value(text, "kimmy_embed_skipped_no_shadow_total"@, decimal(s.embed_skipped_no_shadow as nat))
    &&& has_value(text, "kimmy_embed_failures_total"@, decimal(s.embed_failures as nat))
    &&& has_value(text, "kimmy_embed_provider_errors_total{kind=\"connect\"}"@, decimal(s.embed_transport@[0] as nat))
    &&& has_value(text, "kimmy_embed_provider_errors_total{kind=\"timeout\"}"@, decimal(s.embed_transport@[1] as nat))
    &&& has_value(text, "kimmy_embed_provider_errors_total{kind=\"reset\"}"@, decimal(s.embed_transport@[2] as nat))
    &&& has_value(text, "kimmy_embed_provider_errors_total{kind=\"other\"}"@, decimal(s.embed_transport@[3] as nat))
    &&& has_value(text, "kimmy_embed_provider_requests_total"@, decimal(s.embed_provider_requests as nat))
    &&& has_value(text, "kimmy_embed_provider_tokens_total"@, decimal(s.embed_provider_tokens as nat))
}

pub broadcast proof fn lemma_embed_values(
    out: Seq<char>,
    s: MetricsSnapshot,
)
    requires
        parseable(out),
    ensures
        goes_on(out, #[trigger] embed_section(out, s)),
        shows_embed(embed_section(out, s), s),
{
    reveal(embed_section);
    reveal(shows_embed);
    broadcast use group_values;

    lemma_embed_help();
    assert({
        &&& is_name("kimmy_tls_reloads_total"@)
        &&& one_line("counter"@)
        &&& is_name("kimmy_tls_reloads_total{outcome=\"ok\"}"@)
        &&& is_name("kimmy_tls_reloads_total{outcome=\"failed\"}"@)
        &&& is_name("kimmy_jwks_refresh_total"@)
        &&& is_name("kimmy_jwks_refresh_total{outcome=\"ok\"}"@)
        &&& is_name("kimmy_jwks_refresh_total{outcome=\"failed\"}"@)
        &&& is_name("kimmy_embed_documents_total"@)
        &&& is_name("kimmy_embed_chunks_total"@)
        &&& is_name("kimmy_embed_deferred_total"@)
        &&& is_name("kimmy_embed_skipped_not_owned_total"@)
        &&& is_name("kimmy_embed_skipped_no_shadow_total"@)
        &&& is_name("kimmy_embed_failures_total"@)
        &&& is_name("kimmy_embed_provider_errors_total"@)
        &&& is_name("kimmy_embed_provider_errors_total{kind=\"connect\"}"@)
        &&& is_name("kimmy_embed_provider_errors_total{kind=\"timeout\"}"@)
        &&& is_name("kimmy_embed_provider_errors_total{kind=\"reset\"}"@)
        &&& is_name("kimmy_embed_provider_errors_total{kind=\"other\"}"@)
        &&& is_name("kimmy_embed_provider_requests_total"@)
        &&& is_name("kimmy_embed_provider_tokens_total"@)
    }) by {
        reveal_strlit("kimmy_tls_reloads_total");
        reveal_strlit("counter");
        reveal_strlit("kimmy_tls_reloads_total{outcome=\"ok\"}");
        reveal_strlit("kimmy_tls_reloads_total{outcome=\"failed\"}");
        reveal_strlit("kimmy_jwks_refresh_total");
        reveal_strlit("kimmy_jwks_refresh_total{outcome=\"ok\"}");
        reveal_strlit("kimmy_jwks_refresh_total{outcome=\"failed\"}");
        reveal_strlit("kimmy_embed_documents_total");
        reveal_strlit("kimmy_embed_chunks_total");
        reveal_strlit("kimmy_embed_deferred_total");
        reveal_strlit("kimmy_embed_skipped_not_owned_total");
        reveal_strlit("kimmy_embed_skipped_no_shadow_total");
        reveal_strlit("kimmy_embed_failures_total");
        reveal_strlit("kimmy_embed_provider_errors_total");
        reveal_strlit("kimmy_embed_provider_errors_total{kind=\"connect\"}");
        reveal_strlit("kimmy_embed_provider_errors_total{kind=\"timeout\"}");
        reveal_strlit("kimmy_embed_provider_errors_total{kind=\"reset\"}");
        reveal_strlit("kimmy_embed_provider_errors_total{kind=\"other\"}");
        reveal_strlit("kimmy_embed_provider_requests_total");
        reveal_strlit("kimmy_embed_provider_tokens_total");
        reveal(is_name);
        reveal(one_line);
    }
}

proof fn lemma_embed_values_kept(
    before: Seq<char>,
    after: Seq<char>,
    s: MetricsSnapshot,
)
    requires
        goes_on(before, after),
        shows_embed(before, s),
    ensures
        shows_embed(after, s),
{
    reveal(shows_embed);
}

/// The values on how long requests took, each behind its own name.
#[verifier::opaque]
pub open spec fn shows_latency(
    text: Seq<char>,
    s: MetricsSnapshot,
    buckets: Seq<u64>,
) -> bool {
    &&& has_histogram_of(
        text,
        "kimmy_request_duration_seconds"@,
        ""@,
        LATENCY_BUCKETS_US@,
        buckets,
        s.latency_count,
        s.latency_sum_us,
    )
}

pub broadcast proof fn lemma_latency_values(
    out: Seq<char>,
    s: MetricsSnapshot,
    buckets: Seq<u64>,
)
    requires
        parseable(out),
    ensures
        goes_on(out, #[trigger] latency(out, s, buckets)),
        shows_latency(latency(out, s, buckets), s, buckets),
{
    reveal(latency);
    reveal(shows_latency);
    broadcast use group_values;

    lemma_latency_help();
    assert({
        &&& is_name("kimmy_request_duration_seconds"@)
        &&& one_line("histogram"@)
        &&& one_line(""@)
    }) by {
        reveal_strlit("kimmy_request_duration_seconds");
        reveal_strlit("histogram");
        reveal_strlit("");
        reveal(is_name);
        reveal(one_line);
    }
}

proof fn lemma_latency_values_kept(
    before: Seq<char>,
    after: Seq<char>,
    s: MetricsSnapshot,
    buckets: Seq<u64>,
)
    requires
        goes_on(before, after),
        shows_latency(before, s, buckets),
    ensures
        shows_latency(after, s, buckets),
{
    reveal(shows_latency);
}

/// The values on how long backups took, each behind its own name.
#[verifier::opaque]
pub open spec fn shows_backup_duration(
    text: Seq<char>,
    s: MetricsSnapshot,
    buckets: Seq<u64>,
) -> bool {
    &&& has_histogram_of(
        text,
        "kimmy_backup_duration_seconds"@,
        ""@,
        BACKUP_BUCKETS_US@,
        buckets,
        s.backups,
        s.backup_duration_sum_us,
    )
}

pub broadcast proof fn lemma_backup_duration_values(
    out: Seq<char>,
    s: MetricsSnapshot,
    buckets: Seq<u64>,
)
    requires
        parseable(out),
    ensures
        goes_on(out, #[trigger] backup_duration(out, s, buckets)),
        shows_backup_duration(backup_duration(out, s, buckets), s, buckets),
{
    reveal(backup_duration);
    reveal(shows_backup_duration);
    broadcast use group_values;

    lemma_backup_duration_help();
    assert({
        &&& is_name("kimmy_backup_duration_seconds"@)
        &&& one_line("histogram"@)
        &&& one_line(""@)
    }) by {
        reveal_strlit("kimmy_backup_duration_seconds");
        reveal_strlit("histogram");
        reveal_strlit("");
        reveal(is_name);
        reveal(one_line);
    }
}

proof fn lemma_backup_duration_values_kept(
    before: Seq<char>,
    after: Seq<char>,
    s: MetricsSnapshot,
    buckets: Seq<u64>,
)
    requires
        goes_on(before, after),
        shows_backup_duration(before, s, buckets),
    ensures
        shows_backup_duration(after, s, buckets),
{
    reveal(shows_backup_duration);
}

/// The values on how long pulls took, each behind its own name.
#[verifier::opaque]
pub open spec fn shows_sync_pulls(
    text: Seq<char>,
    pulls: PullReport,
) -> bool {
    &&& has_histogram_of(
        text,
        "kimmy_sync_pull_seconds"@,
        "phase=\"serve\""@,
        PULL_BUCKETS_US@,
        pulls.serve.buckets@,
        pulls.serve.count,
        pulls.serve.sum_us,
    )
    &&& has_histogram_of(
        text,
        "kimmy_sync_pull_seconds"@,
        "phase=\"wait\""@,
        PULL_BUCKETS_US@,
        pulls.wait.buckets@,
        pulls.wait.count,
        pulls.wait.sum_us,
    )
    &&& has_histogram_of(
        text,
        "kimmy_sync_pull_seconds"@,
        "phase=\"apply\""@,
        PULL_BUCKETS_US@,
        pulls.apply.buckets@,
        pulls.apply.count,
        pulls.apply.sum_us,
    )
    &&& has_histogram_of(
        text,
        "kimmy_sync_entry_wait_seconds"@,
        ""@,
        ENTRY_WAIT_BUCKETS_US@,
        pulls.entry_wait.buckets@,
        pulls.entry_wait.count,
        pulls.entry_wait.sum_us,
    )
}

/// Whether a phase of the pulls stands there.
#[verifier::opaque]
spec fn has_pulls(text: Seq<char>, label: Seq<char>, pulls: PullHistogram) -> bool {
    has_histogram_of(
        text,
        "kimmy_sync_pull_seconds"@,
        label,
        PULL_BUCKETS_US@,
        pulls.buckets@,
        pulls.count,
        pulls.sum_us,
    )
}

proof fn lemma_pulls(out: Seq<char>, label: Seq<char>, pulls: PullHistogram)
    requires
        parseable(out),
        one_line(label),
        is_name("kimmy_sync_pull_seconds"@),
    ensures
        goes_on(
            out,
            histogram(
                out,
                "kimmy_sync_pull_seconds"@,
                label,
                PULL_BUCKETS_US@,
                pulls.buckets@,
                pulls.count,
                pulls.sum_us,
            ),
        ),
        has_pulls(
            histogram(
                out,
                "kimmy_sync_pull_seconds"@,
                label,
                PULL_BUCKETS_US@,
                pulls.buckets@,
                pulls.count,
                pulls.sum_us,
            ),
            label,
            pulls,
        ),
{
    reveal(has_pulls);
    lemma_histogram_values(
        out,
        "kimmy_sync_pull_seconds"@,
        label,
        PULL_BUCKETS_US@,
        pulls.buckets@,
        pulls.count,
        pulls.sum_us,
    );
}

proof fn lemma_pulls_kept(
    before: Seq<char>,
    after: Seq<char>,
    label: Seq<char>,
    pulls: PullHistogram,
)
    requires
        goes_on(before, after),
        has_pulls(before, label, pulls),
    ensures
        has_pulls(after, label, pulls),
{
    reveal(has_pulls);
}

proof fn lemma_pulls_shown(text: Seq<char>, pulls: PullReport)
    requires
        has_pulls(text, "phase=\"serve\""@, pulls.serve),
        has_pulls(text, "phase=\"wait\""@, pulls.wait),
        has_pulls(text, "phase=\"apply\""@, pulls.apply),
        has_histogram_of(
            text,
            "kimmy_sync_entry_wait_seconds"@,
            ""@,
            ENTRY_WAIT_BUCKETS_US@,
            pulls.entry_wait.buckets@,
            pulls.entry_wait.count,
            pulls.entry_wait.sum_us,
        ),
    ensures
        shows_sync_pulls(text, pulls),
{
    reveal(shows_sync_pulls);
    reveal(has_pulls);
}

pub broadcast proof fn lemma_sync_pulls_values(out: Seq<char>, pulls: PullReport)
    requires
        parseable(out),
    ensures
        goes_on(out, #[trigger] sync_pulls(out, pulls)),
        shows_sync_pulls(sync_pulls(out, pulls), pulls),
{
    reveal(sync_pulls);
    lemma_sync_pulls_help();
    assert({
        &&& is_name("kimmy_sync_pull_seconds"@)
        &&& one_line("histogram"@)
        &&& one_line("phase=\"serve\""@)
        &&& one_line("phase=\"wait\""@)
        &&& one_line("phase=\"apply\""@)
        &&& is_name("kimmy_sync_entry_wait_seconds"@)
        &&& one_line(""@)
    }) by {
        reveal_strlit("kimmy_sync_pull_seconds");
        reveal_strlit("histogram");
        reveal_strlit("phase=\"serve\"");
        reveal_strlit("phase=\"wait\"");
        reveal_strlit("phase=\"apply\"");
        reveal_strlit("kimmy_sync_entry_wait_seconds");
        reveal_strlit("");
        reveal(is_name);
        reveal(one_line);
    }
    let name = "kimmy_sync_pull_seconds"@;
    let bounds = PULL_BUCKETS_US@;
    let begun = header(out, name, help::H_SYNC_PULL_SECONDS@, "histogram"@);
    a_header_is_two_comments(out, name, help::H_SYNC_PULL_SECONDS@, "histogram"@);
    lemma_pulls(begun, "phase=\"serve\""@, pulls.serve);
    let served = histogram(
        begun,
        name,
        "phase=\"serve\""@,
        bounds,
        pulls.serve.buckets@,
        pulls.serve.count,
        pulls.serve.sum_us,
    );
    lemma_pulls(served, "phase=\"wait\""@, pulls.wait);
    let waited = histogram(
        served,
        name,
        "phase=\"wait\""@,
        bounds,
        pulls.wait.buckets@,
        pulls.wait.count,
        pulls.wait.sum_us,
    );
    lemma_pulls(waited, "phase=\"apply\""@, pulls.apply);
    let applied = histogram(
        waited,
        name,
        "phase=\"apply\""@,
        bounds,
        pulls.apply.buckets@,
        pulls.apply.count,
        pulls.apply.sum_us,
    );
    let entry = "kimmy_sync_entry_wait_seconds"@;
    let again = header(applied, entry, help::H_SYNC_ENTRY_WAIT_SECONDS@, "histogram"@);
    a_header_is_two_comments(applied, entry, help::H_SYNC_ENTRY_WAIT_SECONDS@, "histogram"@);
    let whole = sync_pulls(out, pulls);
    lemma_histogram_values(
        again,
        entry,
        ""@,
        ENTRY_WAIT_BUCKETS_US@,
        pulls.entry_wait.buckets@,
        pulls.entry_wait.count,
        pulls.entry_wait.sum_us,
    );
    lemma_pulls_kept(served, whole, "phase=\"serve\""@, pulls.serve);
    lemma_pulls_kept(waited, whole, "phase=\"wait\""@, pulls.wait);
    lemma_pulls_kept(applied, whole, "phase=\"apply\""@, pulls.apply);
    lemma_pulls_shown(whole, pulls);
}

proof fn lemma_sync_pulls_values_kept(
    before: Seq<char>,
    after: Seq<char>,
    pulls: PullReport,
)
    requires
        goes_on(before, after),
        shows_sync_pulls(before, pulls),
    ensures
        shows_sync_pulls(after, pulls),
{
    reveal(shows_sync_pulls);
}

/// The values on what this node served, each behind its own name.
#[verifier::opaque]
pub open spec fn shows_sync_serve(
    text: Seq<char>,
    serve: ServeSnapshot,
) -> bool {
    &&& has_value(text, "kimmy_sync_served_windows_total"@, decimal(serve.windows as nat))
    &&& has_value(text, "kimmy_sync_served_entries_total"@, decimal(serve.entries as nat))
    &&& has_value(text, "kimmy_sync_serve_passed_entries_total"@, decimal(serve.passed as nat))
    &&& has_value(text, "kimmy_sync_serve_walk_read_seconds_total"@, fixed_point(serve.read_ns as nat, 9))
    &&& has_value(text, "kimmy_sync_serve_walk_read_bytes_total"@, decimal(serve.read_bytes as nat))
    &&& has_histogram_of(
        text,
        "kimmy_sync_serve_walk_seconds"@,
        ""@,
        SERVE_WALK_BUCKETS_US@,
        serve.walk_buckets@,
        serve.windows,
        serve.walk_sum_us,
    )
}

pub broadcast proof fn lemma_sync_serve_values(
    out: Seq<char>,
    serve: ServeSnapshot,
)
    requires
        parseable(out),
    ensures
        goes_on(out, #[trigger] sync_serve(out, serve)),
        shows_sync_serve(sync_serve(out, serve), serve),
{
    reveal(sync_serve);
    reveal(shows_sync_serve);
    broadcast use group_values;

    lemma_sync_serve_help();
    assert({
        &&& is_name("kimmy_sync_served_windows_total"@)
        &&& one_line("counter"@)
        &&& is_name("kimmy_sync_served_entries_total"@)
        &&& is_name("kimmy_sync_serve_passed_entries_total"@)
        &&& is_name("kimmy_sync_serve_walk_read_seconds_total"@)
        &&& is_name("kimmy_sync_serve_walk_read_bytes_total"@)
        &&& is_name("kimmy_sync_serve_walk_seconds"@)
        &&& one_line("histogram"@)
        &&& one_line(""@)
    }) by {
        reveal_strlit("kimmy_sync_served_windows_total");
        reveal_strlit("counter");
        reveal_strlit("kimmy_sync_served_entries_total");
        reveal_strlit("kimmy_sync_serve_passed_entries_total");
        reveal_strlit("kimmy_sync_serve_walk_read_seconds_total");
        reveal_strlit("kimmy_sync_serve_walk_read_bytes_total");
        reveal_strlit("kimmy_sync_serve_walk_seconds");
        reveal_strlit("histogram");
        reveal_strlit("");
        reveal(is_name);
        reveal(one_line);
    }
}

broadcast group group_section_values {
    lemma_engine_values,
    lemma_process_values,
    lemma_request_values,
    lemma_webhook_values,
    lemma_confirmation_values,
    lemma_sync_values,
    lemma_embed_values,
    lemma_latency_values,
    lemma_backup_duration_values,
    lemma_sync_pulls_values,
    lemma_sync_serve_values,
}

/// Whether every value of a snapshot stands on a page.
pub open spec fn shows_every_value(
    text: Seq<char>,
    s: MetricsSnapshot,
    latency_buckets: Seq<u64>,
    backup_buckets: Seq<u64>,
    wait: WriterWaitSnapshot,
    hold: WriterHoldSnapshot,
    retries: Seq<u64>,
) -> bool {
    &&& shows_engine(text, s, wait, hold)
    &&& shows_process(text, s, retries)
    &&& shows_request(text, s)
    &&& shows_webhook(text, s)
    &&& shows_confirmation(text, s)
    &&& shows_sync(text, s)
    &&& shows_embed(text, s)
    &&& shows_latency(text, s, latency_buckets)
    &&& shows_backup_duration(text, s, backup_buckets)
    &&& shows_sync_pulls(text, s.sync_pulls)
    &&& shows_sync_serve(text, s.sync_serve)
}

/// Every value of a snapshot stands on its page behind its own name.
pub proof fn every_value_stands_behind_its_name(
    s: MetricsSnapshot,
    latency_buckets: Seq<u64>,
    backup_buckets: Seq<u64>,
    wait: WriterWaitSnapshot,
    hold: WriterHoldSnapshot,
    retries: Seq<u64>,
)
    ensures
        shows_every_value(
            page(s, latency_buckets, backup_buckets, wait, hold, retries),
            s,
            latency_buckets,
            backup_buckets,
            wait,
            hold,
            retries,
        ),
{
    broadcast use group_section_values;

    assert(parseable(Seq::<char>::empty())) by {
        reveal(parseable);
    }
    let engine = engine_section(Seq::empty(), s, wait, hold);
    let process = process_section(engine, s, retries);
    let request = request_section(process, s);
    let webhook = webhook_section(request, s);
    let confirmation = confirmation_section(webhook, s);
    let sync = sync_section(confirmation, s);
    let embed = embed_section(sync, s);
    let timed = latency(embed, s, latency_buckets);
    let backed_up = backup_duration(timed, s, backup_buckets);
    let pulled = sync_pulls(backed_up, s.sync_pulls);
    let whole = sync_serve(pulled, s.sync_serve);
    lemma_engine_values_kept(engine, whole, s, wait, hold);
    lemma_process_values_kept(process, whole, s, retries);
    lemma_request_values_kept(request, whole, s);
    lemma_webhook_values_kept(webhook, whole, s);
    lemma_confirmation_values_kept(confirmation, whole, s);
    lemma_sync_values_kept(sync, whole, s);
    lemma_embed_values_kept(embed, whole, s);
    lemma_latency_values_kept(timed, whole, s, latency_buckets);
    lemma_backup_duration_values_kept(backed_up, whole, s, backup_buckets);
    lemma_sync_pulls_values_kept(pulled, whole, s.sync_pulls);
}

/// The page that is rendered shows what a snapshot of the same moment reads.
pub proof fn a_rendered_page_shows_what_a_snapshot_reads(
    m: &mut Metrics,
    readings: StorageReadings,
    live: LiveReadings,
    now: u64,
    text: String,
    s: MetricsSnapshot,
)
    requires
        call_ensures(Metrics::render_with_at, (m, &readings, &live, now), text),
        call_ensures(Metrics::snapshot_with_at, (old(m), &readings, &live, now), s),
    ensures
        shows_every_value(
            text@,
            s,
            old(m).latency_buckets@,
            old(m).backup_buckets@,
            readings.writer_wait,
            readings.writer_hold,
            live.task_retries@,
        ),
        final(m).requests == old(m).requests,
        final(m).latency_buckets == old(m).latency_buckets,
        final(m).runtime_stall_otlp_us == old(m).runtime_stall_otlp_us,
        final(m).runtime_stall_us == 0,
{
    let shown = choose|shown: MetricsSnapshot| #[trigger]
        old(m).reads_as(readings, live, now, shown) && shows_every_value(
            text@,
            shown,
            old(m).latency_buckets@,
            old(m).backup_buckets@,
            readings.writer_wait,
            readings.writer_hold,
            live.task_retries@,
        );
    lemma_one_reading(*old(m), readings, live, now, s, shown);
}

/// There is one snapshot of a moment.
proof fn lemma_one_reading(
    m: Metrics,
    readings: StorageReadings,
    live: LiveReadings,
    now: u64,
    a: MetricsSnapshot,
    b: MetricsSnapshot,
)
    requires
        m.reads_as(readings, live, now, a),
        m.reads_as(readings, live, now, b),
    ensures
        a == b,
{
    assert(a.task_progress_age_secs =~= b.task_progress_age_secs);
    assert(a.embed_transport =~= b.embed_transport);
}

} // verus!
