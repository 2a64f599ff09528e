//! What a scrape can rely on: every line of the page is a comment or a sample, and
//! every series is always there.

use vstd::prelude::*;
use vstd::string::*;

use super::help_lines::{
    lemma_writer_wait_help,
    lemma_writer_hold_help,
    lemma_hold_decomposition_help,
    lemma_engine_help,
    lemma_process_help,
    lemma_request_help,
    lemma_webhook_help,
    lemma_confirmation_help,
    lemma_sync_help,
    lemma_embed_help,
    lemma_latency_help,
    lemma_backup_duration_help,
    lemma_sync_pulls_help,
    lemma_sync_serve_help,
};
use super::lines::{
    a_count_is_a_number, a_fraction_is_a_number, a_header_is_two_comments, a_sample_is_one_line,
    goes_on, is_name, one_line, opens, parseable, type_line,
};
use super::page::{
    backup_duration, confirmation_section, embed_section, engine_section, hold_decomposition,
    holder_label, holder_name, latency, page, process_section, request_section, sync_pulls,
    sync_section, sync_serve, webhook_section, writer_hold, writer_wait,
};
use super::rows::{
    has_histogram, has_io, has_parts, has_sample, label_name, lemma_component_rows,
    lemma_confirmation_rows, lemma_estimated_rows, lemma_histogram, lemma_hold_rows, lemma_io_rows, lemma_overcounted_rows, lemma_phase_rows,
    lemma_progress_rows, lemma_task_rows,
};
use super::{
    HoldDecomposition, MetricsSnapshot, PullReport, ServeSnapshot, WriterHoldSnapshot,
    WriterWaitSnapshot, BACKUP_BUCKETS_US, CONFIRM_OUTCOMES, ENTRY_WAIT_BUCKETS_US,
    HOLD_COMPONENTS, HOLD_PHASES, LATENCY_BUCKETS_US, PROGRESS_WRITERS, PULL_BUCKETS_US,
    SERVE_WALK_BUCKETS_US, TASKS, WRITER_HOLD_BUCKETS_US, WRITER_WAIT_BUCKETS_US,
};

verus! {

broadcast group group_rows {
    a_header_is_two_comments,
    a_sample_is_one_line,
    a_count_is_a_number,
    a_fraction_is_a_number,
    lemma_histogram,
    lemma_hold_rows,
    lemma_component_rows,
    lemma_phase_rows,
    lemma_io_rows,
    lemma_estimated_rows,
    lemma_overcounted_rows,
    lemma_task_rows,
    lemma_progress_rows,
    lemma_confirmation_rows,
}

/// Whether a series' TYPE line is there.
pub open spec fn has_type(text: Seq<char>, name: Seq<char>) -> bool {
    opens(text, type_line(name))
}

/// Whether the progress age of each background writer that this node runs is
/// there.
pub open spec fn has_progress(text: Seq<char>, s: MetricsSnapshot) -> bool {
    forall|slot: int|
        0 <= slot < 5 && s.task_progress_age_secs@[slot] is Some ==> has_sample(
            text,
            label_name(
                "kimmy_task_progress_age_seconds{task=\""@,
                (#[trigger] PROGRESS_WRITERS@[slot])@,
            ),
        )
}

/// The series on how long writes waited for the storage writer.
pub open spec fn has_writer_wait(text: Seq<char>) -> bool {
    &&& has_type(text, "kimmy_write_lock_wait_seconds"@)
    &&& has_histogram(text, "kimmy_write_lock_wait_seconds"@, ""@, WRITER_WAIT_BUCKETS_US@)
}

pub broadcast proof fn lemma_writer_wait(
    out: Seq<char>,
    wait: WriterWaitSnapshot,
)
    requires
        parseable(out),
    ensures
        goes_on(out, #[trigger] writer_wait(out, wait)),
        has_writer_wait(writer_wait(out, wait)),
{
    reveal(writer_wait);
    broadcast use group_rows;

    lemma_writer_wait_help();
    assert({
        &&& is_name("kimmy_write_lock_wait_seconds"@)
        &&& one_line("histogram"@)
        &&& one_line(""@)
    }) by {
        reveal_strlit("kimmy_write_lock_wait_seconds");
        reveal_strlit("histogram");
        reveal_strlit("");
        reveal(is_name);
        reveal(one_line);
    }
}

/// The series on how long each holder held the storage writer.
pub open spec fn has_writer_hold(text: Seq<char>) -> bool {
    &&& has_type(text, "kimmy_write_lock_held_seconds"@)
    &&& forall|slot: int|
        0 <= slot < 12 ==> has_histogram(
            text,
            "kimmy_write_lock_held_seconds"@,
            #[trigger] holder_label(slot),
            WRITER_HOLD_BUCKETS_US@,
        )
}

pub broadcast proof fn lemma_writer_hold(
    out: Seq<char>,
    hold: WriterHoldSnapshot,
)
    requires
        parseable(out),
    ensures
        goes_on(out, #[trigger] writer_hold(out, hold)),
        has_writer_hold(writer_hold(out, hold)),
{
    reveal(writer_hold);
    broadcast use group_rows;

    lemma_writer_hold_help();
    assert({
        &&& is_name("kimmy_write_lock_held_seconds"@)
        &&& one_line("histogram"@)
    }) by {
        reveal_strlit("kimmy_write_lock_held_seconds");
        reveal_strlit("histogram");
        reveal(is_name);
        reveal(one_line);
    }
}

/// The series on what holding the storage writer was spent on.
pub open spec fn has_hold_decomposition(text: Seq<char>) -> bool {
    &&& has_type(text, "kimmy_write_lock_held_component_seconds_total"@)
    &&& has_parts(
        text,
        "kimmy_write_lock_held_component_seconds_total"@,
        12,
        "component"@,
        HOLD_COMPONENTS@,
    )
    &&& has_type(text, "kimmy_write_lock_held_phase_seconds_total"@)
    &&& has_parts(
        text,
        "kimmy_write_lock_held_phase_seconds_total"@,
        12,
        "phase"@,
        HOLD_PHASES@,
    )
    &&& has_type(text, "kimmy_write_lock_held_io_bytes_total"@)
    &&& has_io(text, 12)
    &&& has_type(text, "kimmy_write_lock_held_write_estimated_seconds_total"@)
    &&& forall|slot: int|
        0 <= slot < 12 ==> has_sample(
            text,
            #[trigger] holder_name(
                "kimmy_write_lock_held_write_estimated_seconds_total"@,
                slot,
                ""@,
            ),
        )
    &&& has_type(text, "kimmy_write_lock_held_overcounted_total"@)
    &&& forall|slot: int|
        0 <= slot < 12 ==> has_sample(
            text,
            #[trigger] holder_name("kimmy_write_lock_held_overcounted_total"@, slot, ""@),
        )
    &&& has_type(text, "kimmy_write_lock_held_cpu_unmeasured_total"@)
    &&& has_sample(text, "kimmy_write_lock_held_cpu_unmeasured_total"@)
}

pub broadcast proof fn lemma_hold_decomposition(
    out: Seq<char>,
    d: HoldDecomposition,
)
    requires
        parseable(out),
    ensures
        goes_on(out, #[trigger] hold_decomposition(out, d)),
        has_hold_decomposition(hold_decomposition(out, d)),
{
    reveal(hold_decomposition);
    broadcast use group_rows;

    lemma_hold_decomposition_help();
    assert({
        &&& is_name("kimmy_write_lock_held_component_seconds_total"@)
        &&& one_line("counter"@)
        &&& is_name("kimmy_write_lock_held_phase_seconds_total"@)
        &&& is_name("kimmy_write_lock_held_io_bytes_total"@)
        &&& is_name("kimmy_write_lock_held_write_estimated_seconds_total"@)
        &&& is_name("kimmy_write_lock_held_overcounted_total"@)
        &&& is_name("kimmy_write_lock_held_cpu_unmeasured_total"@)
    }) by {
        reveal_strlit("kimmy_write_lock_held_component_seconds_total");
        reveal_strlit("counter");
        reveal_strlit("kimmy_write_lock_held_phase_seconds_total");
        reveal_strlit("kimmy_write_lock_held_io_bytes_total");
        reveal_strlit("kimmy_write_lock_held_write_estimated_seconds_total");
        reveal_strlit("kimmy_write_lock_held_overcounted_total");
        reveal_strlit("kimmy_write_lock_held_cpu_unmeasured_total");
        reveal(is_name);
        reveal(one_line);
    }
}

/// The series on the storage engine.
#[verifier::opaque]
pub open spec fn has_engine(text: Seq<char>) -> bool {
    &&& has_type(text, "kimmy_databases"@)
    &&& has_sample(text, "kimmy_databases"@)
    &&& has_type(text, "kimmy_collections"@)
    &&& has_sample(text, "kimmy_collections"@)
    &&& has_type(text, "kimmy_unique_violations"@)
    &&& has_sample(text, "kimmy_unique_violations"@)
    &&& has_type(text, "kimmy_commits"@)
    &&& has_sample(text, "kimmy_commits"@)
    &&& has_type(text, "kimmy_fsyncs"@)
    &&& has_sample(text, "kimmy_fsyncs"@)
    &&& has_type(text, "kimmy_commits_grouped_total"@)
    &&& has_sample(text, "kimmy_commits_grouped_total"@)
    &&& has_writer_wait(text)
    &&& has_type(text, "kimmy_write_lock_wait_timeouts_total"@)
    &&& has_sample(text, "kimmy_write_lock_wait_timeouts_total"@)
    &&& has_type(text, "kimmy_write_lock_held_seconds_max"@)
    &&& has_sample(text, "kimmy_write_lock_held_seconds_max"@)
    &&& has_writer_hold(text)
    &&& has_hold_decomposition(text)
}

pub broadcast proof fn lemma_engine(
    out: Seq<char>,
    s: MetricsSnapshot,
    wait: WriterWaitSnapshot,
    hold: WriterHoldSnapshot,
)
    requires
        parseable(out),
    ensures
        goes_on(out, #[trigger] engine_section(out, s, wait, hold)),
        has_engine(engine_section(out, s, wait, hold)),
{
    reveal(engine_section);
    reveal(has_engine);
    broadcast use group_rows;
    broadcast use {lemma_writer_wait, lemma_writer_hold, lemma_hold_decomposition};

    lemma_engine_help();
    assert({
        &&& is_name("kimmy_databases"@)
        &&& one_line("gauge"@)
        &&& is_name("kimmy_collections"@)
        &&& is_name("kimmy_unique_violations"@)
        &&& one_line("counter"@)
        &&& is_name("kimmy_commits"@)
        &&& is_name("kimmy_fsyncs"@)
        &&& is_name("kimmy_commits_grouped_total"@)
        &&& is_name("kimmy_write_lock_wait_timeouts_total"@)
        &&& is_name("kimmy_write_lock_held_seconds_max"@)
    }) by {
        reveal_strlit("kimmy_databases");
        reveal_strlit("gauge");
        reveal_strlit("kimmy_collections");
        reveal_strlit("kimmy_unique_violations");
        reveal_strlit("counter");
        reveal_strlit("kimmy_commits");
        reveal_strlit("kimmy_fsyncs");
        reveal_strlit("kimmy_commits_grouped_total");
        reveal_strlit("kimmy_write_lock_wait_timeouts_total");
        reveal_strlit("kimmy_write_lock_held_seconds_max");
        reveal(is_name);
        reveal(one_line);
    }
}

proof fn lemma_engine_kept(before: Seq<char>, after: Seq<char>)
    requires
        goes_on(before, after),
        has_engine(before),
    ensures
        has_engine(after),
{
    reveal(has_engine);
}

/// The series on the process and its tasks.
#[verifier::opaque]
pub open spec fn has_process(text: Seq<char>) -> bool {
    &&& has_type(text, "kimmy_storage_bytes"@)
    &&& has_sample(text, "kimmy_storage_bytes"@)
    &&& has_type(text, "kimmy_vector_index_cache_bytes"@)
    &&& has_sample(text, "kimmy_vector_index_cache_bytes"@)
    &&& has_type(text, "kimmy_process_resident_bytes"@)
    &&& has_sample(text, "kimmy_process_resident_bytes"@)
    &&& has_type(text, "kimmy_process_resident_peak_bytes"@)
    &&& has_sample(text, "kimmy_process_resident_peak_bytes"@)
    &&& has_type(text, "kimmy_up"@)
    &&& has_sample(text, "kimmy_up"@)
    &&& has_type(text, "kimmy_uptime_seconds"@)
    &&& has_sample(text, "kimmy_uptime_seconds"@)
    &&& has_type(text, "kimmy_task_retries_total"@)
    &&& forall|slot: int|
        0 <= slot < 16 ==> has_sample(
            text,
            label_name("kimmy_task_retries_total{task=\""@, (#[trigger] TASKS@[slot])@),
        )
    &&& has_type(text, "kimmy_task_progress_age_seconds"@)
    &&& has_type(text, "kimmy_runtime_stall_seconds"@)
    &&& has_sample(text, "kimmy_runtime_stall_seconds"@)
}

pub broadcast proof fn lemma_process(
    out: Seq<char>,
    s: MetricsSnapshot,
    retries: Seq<u64>,
)
    requires
        parseable(out),
    ensures
        goes_on(out, #[trigger] process_section(out, s, retries)),
        has_process(process_section(out, s, retries)),
        has_progress(process_section(out, s, retries), s),
{
    reveal(process_section);
    reveal(has_process);
    broadcast use group_rows;

    lemma_process_help();
    assert({
        &&& is_name("kimmy_storage_bytes"@)
        &&& one_line("gauge"@)
        &&& is_name("kimmy_vector_index_cache_bytes"@)
        &&& is_name("kimmy_process_resident_bytes"@)
        &&& is_name("kimmy_process_resident_peak_bytes"@)
        &&& is_name("kimmy_up"@)
        &&& is_name("kimmy_uptime_seconds"@)
        &&& is_name("kimmy_task_retries_total"@)
        &&& one_line("counter"@)
        &&& is_name("kimmy_task_progress_age_seconds"@)
        &&& is_name("kimmy_runtime_stall_seconds"@)
    }) by {
        reveal_strlit("kimmy_storage_bytes");
        reveal_strlit("gauge");
        reveal_strlit("kimmy_vector_index_cache_bytes");
        reveal_strlit("kimmy_process_resident_bytes");
        reveal_strlit("kimmy_process_resident_peak_bytes");
        reveal_strlit("kimmy_up");
        reveal_strlit("kimmy_uptime_seconds");
        reveal_strlit("kimmy_task_retries_total");
        reveal_strlit("counter");
        reveal_strlit("kimmy_task_progress_age_seconds");
        reveal_strlit("kimmy_runtime_stall_seconds");
        reveal(is_name);
        reveal(one_line);
    }
}

proof fn lemma_process_kept(before: Seq<char>, after: Seq<char>)
    requires
        goes_on(before, after),
        has_process(before),
    ensures
        has_process(after),
{
    reveal(has_process);
}

/// The series on requests, authorisation and expiry.
#[verifier::opaque]
pub open spec fn has_request(text: Seq<char>) -> bool {
    &&& has_type(text, "kimmy_requests_total"@)
    &&& has_sample(text, "kimmy_requests_total"@)
    &&& has_type(text, "kimmy_responses_total"@)
    &&& has_sample(text, "kimmy_responses_total{class=\"2xx\"}"@)
    &&& has_sample(text, "kimmy_responses_total{class=\"4xx\"}"@)
    &&& has_sample(text, "kimmy_responses_total{class=\"5xx\"}"@)
    &&& has_type(text, "kimmy_authz_denied_total"@)
    &&& has_sample(text, "kimmy_authz_denied_total"@)
    &&& has_type(text, "kimmy_auth_failures_total"@)
    &&& has_sample(text, "kimmy_auth_failures_total"@)
    &&& has_type(text, "kimmy_rate_limited_total"@)
    &&& has_sample(text, "kimmy_rate_limited_total"@)
    &&& has_type(text, "kimmy_rate_limited_principal_total"@)
    &&& has_sample(text, "kimmy_rate_limited_principal_total"@)
    &&& has_type(text, "kimmy_backups_total"@)
    &&& has_sample(text, "kimmy_backups_total"@)
    &&& has_type(text, "kimmy_ttl_expired_total"@)
    &&& has_sample(text, "kimmy_ttl_expired_total"@)
    &&& has_type(text, "kimmy_ttl_skipped_total"@)
    &&& has_sample(text, "kimmy_ttl_skipped_total"@)
    &&& has_type(text, "kimmy_ttl_skipped_filter_total"@)
    &&& has_sample(text, "kimmy_ttl_skipped_filter_total"@)
    &&& has_type(text, "kimmy_index_unkeyed_total"@)
    &&& has_sample(text, "kimmy_index_unkeyed_total"@)
    &&& has_type(text, "kimmy_index_undecidable_total"@)
    &&& has_sample(text, "kimmy_index_undecidable_total"@)
}

pub broadcast proof fn lemma_request(
    out: Seq<char>,
    s: MetricsSnapshot,
)
    requires
        parseable(out),
    ensures
        goes_on(out, #[trigger] request_section(out, s)),
        has_request(request_section(out, s)),
{
    reveal(request_section);
    reveal(has_request);
    broadcast use group_rows;

    lemma_request_help();
    assert({
        &&& is_name("kimmy_requests_total"@)
        &&& one_line("counter"@)
        &&& is_name("kimmy_responses_total"@)
        &&& is_name("kimmy_responses_total{class=\"2xx\"}"@)
        &&& is_name("kimmy_responses_total{class=\"4xx\"}"@)
        &&& is_name("kimmy_responses_total{class=\"5xx\"}"@)
        &&& is_name("kimmy_authz_denied_total"@)
        &&& is_name("kimmy_auth_failures_total"@)
        &&& is_name("kimmy_rate_limited_total"@)
        &&& is_name("kimmy_rate_limited_principal_total"@)
        &&& is_name("kimmy_backups_total"@)
        &&& is_name("kimmy_ttl_expired_total"@)
        &&& is_name("kimmy_ttl_skipped_total"@)
        &&& is_name("kimmy_ttl_skipped_filter_total"@)
        &&& is_name("kimmy_index_unkeyed_total"@)
        &&& is_name("kimmy_index_undecidable_total"@)
    }) by {
        reveal_strlit("kimmy_requests_total");
        reveal_strlit("counter");
        reveal_strlit("kimmy_responses_total");
        reveal_strlit("kimmy_responses_total{class=\"2xx\"}");
        reveal_strlit("kimmy_responses_total{class=\"4xx\"}");
        reveal_strlit("kimmy_responses_total{class=\"5xx\"}");
        reveal_strlit("kimmy_authz_denied_total");
        reveal_strlit("kimmy_auth_failures_total");
        reveal_strlit("kimmy_rate_limited_total");
        reveal_strlit("kimmy_rate_limited_principal_total");
        reveal_strlit("kimmy_backups_total");
        reveal_strlit("kimmy_ttl_expired_total");
        reveal_strlit("kimmy_ttl_skipped_total");
        reveal_strlit("kimmy_ttl_skipped_filter_total");
        reveal_strlit("kimmy_index_unkeyed_total");
        reveal_strlit("kimmy_index_undecidable_total");
        reveal(is_name);
        reveal(one_line);
    }
}

proof fn lemma_request_kept(before: Seq<char>, after: Seq<char>)
    requires
        goes_on(before, after),
        has_request(before),
    ensures
        has_request(after),
{
    reveal(has_request);
}

/// The series on webhooks and the cluster.
#[verifier::opaque]
pub open spec fn has_webhook(text: Seq<char>) -> bool {
    &&& has_type(text, "kimmy_webhook_deliveries_total"@)
    &&& has_sample(text, "kimmy_webhook_deliveries_total{outcome=\"delivered\"}"@)
    &&& has_sample(text, "kimmy_webhook_deliveries_total{outcome=\"failed\"}"@)
    &&& has_type(text, "kimmy_webhook_events_total"@)
    &&& has_sample(text, "kimmy_webhook_events_total"@)
    &&& has_type(text, "kimmy_webhook_subscriptions"@)
    &&& has_sample(text, "kimmy_webhook_subscriptions{state=\"active\"}"@)
    &&& has_sample(text, "kimmy_webhook_subscriptions{state=\"invalidated\"}"@)
    &&& has_sample(text, "kimmy_webhook_subscriptions{state=\"unreadable\"}"@)
    &&& has_type(text, "kimmy_webhook_backlog_seconds"@)
    &&& has_sample(text, "kimmy_webhook_backlog_seconds"@)
    &&& has_type(text, "kimmy_cluster_members"@)
    &&& has_sample(text, "kimmy_cluster_members"@)
    &&& has_type(text, "kimmy_replication_lag_seconds"@)
    &&& has_sample(text, "kimmy_replication_lag_seconds"@)
    &&& has_type(text, "kimmy_sync_failures_total"@)
    &&& has_sample(text, "kimmy_sync_failures_total"@)
    &&& has_type(text, "kimmy_sync_peers_backing_off"@)
    &&& has_sample(text, "kimmy_sync_peers_backing_off"@)
    &&& has_type(text, "kimmy_sync_ddl_refused_total"@)
    &&& has_sample(text, "kimmy_sync_ddl_refused_total"@)
    &&& has_type(text, "kimmy_sync_ddl_declined_total"@)
    &&& has_sample(text, "kimmy_sync_ddl_declined_total"@)
    &&& has_type(text, "kimmy_sync_ddl_applied_total"@)
    &&& has_sample(text, "kimmy_sync_ddl_applied_total{via=\"pull\"}"@)
    &&& has_sample(text, "kimmy_sync_ddl_applied_total{via=\"push\"}"@)
    &&& has_type(text, "kimmy_sync_ddl_held_total"@)
    &&& has_sample(text, "kimmy_sync_ddl_held_total{via=\"pull\"}"@)
    &&& has_sample(text, "kimmy_sync_ddl_held_total{via=\"push\"}"@)
}

pub broadcast proof fn lemma_webhook(
    out: Seq<char>,
    s: MetricsSnapshot,
)
    requires
        parseable(out),
    ensures
        goes_on(out, #[trigger] webhook_section(out, s)),
        has_webhook(webhook_section(out, s)),
{
    reveal(webhook_section);
    reveal(has_webhook);
    broadcast use group_rows;

    lemma_webhook_help();
    assert({
        &&& is_name("kimmy_webhook_deliveries_total"@)
        &&& one_line("counter"@)
        &&& is_name("kimmy_webhook_deliveries_total{outcome=\"delivered\"}"@)
        &&& is_name("kimmy_webhook_deliveries_total{outcome=\"failed\"}"@)
        &&& is_name("kimmy_webhook_events_total"@)
        &&& is_name("kimmy_webhook_subscriptions"@)
        &&& one_line("gauge"@)
        &&& is_name("kimmy_webhook_subscriptions{state=\"active\"}"@)
        &&& is_name("kimmy_webhook_subscriptions{state=\"invalidated\"}"@)
        &&& is_name("kimmy_webhook_subscriptions{state=\"unreadable\"}"@)
        &&& is_name("kimmy_webhook_backlog_seconds"@)
        &&& is_name("kimmy_cluster_members"@)
        &&& is_name("kimmy_replication_lag_seconds"@)
        &&& is_name("kimmy_sync_failures_total"@)
        &&& is_name("kimmy_sync_peers_backing_off"@)
        &&& is_name("kimmy_sync_ddl_refused_total"@)
        &&& is_name("kimmy_sync_ddl_declined_total"@)
        &&& is_name("kimmy_sync_ddl_applied_total"@)
        &&& is_name("kimmy_sync_ddl_applied_total{via=\"pull\"}"@)
        &&& is_name("kimmy_sync_ddl_applied_total{via=\"push\"}"@)
        &&& is_name("kimmy_sync_ddl_held_total"@)
        &&& is_name("kimmy_sync_ddl_held_total{via=\"pull\"}"@)
        &&& is_name("kimmy_sync_ddl_held_total{via=\"push\"}"@)
    }) by {
        reveal_strlit("kimmy_webhook_deliveries_total");
        reveal_strlit("counter");
        reveal_strlit("kimmy_webhook_deliveries_total{outcome=\"delivered\"}");
        reveal_strlit("kimmy_webhook_deliveries_total{outcome=\"failed\"}");
        reveal_strlit("kimmy_webhook_events_total");
        reveal_strlit("kimmy_webhook_subscriptions");
        reveal_strlit("gauge");
        reveal_strlit("kimmy_webhook_subscriptions{state=\"active\"}");
        reveal_strlit("kimmy_webhook_subscriptions{state=\"invalidated\"}");
        reveal_strlit("kimmy_webhook_subscriptions{state=\"unreadable\"}");
        reveal_strlit("kimmy_webhook_backlog_seconds");
        reveal_strlit("kimmy_cluster_members");
        reveal_strlit("kimmy_replication_lag_seconds");
        reveal_strlit("kimmy_sync_failures_total");
        reveal_strlit("kimmy_sync_peers_backing_off");
        reveal_strlit("kimmy_sync_ddl_refused_total");
        reveal_strlit("kimmy_sync_ddl_declined_total");
        reveal_strlit("kimmy_sync_ddl_applied_total");
        reveal_strlit("kimmy_sync_ddl_applied_total{via=\"pull\"}");
        reveal_strlit("kimmy_sync_ddl_applied_total{via=\"push\"}");
        reveal_strlit("kimmy_sync_ddl_held_total");
        reveal_strlit("kimmy_sync_ddl_held_total{via=\"pull\"}");
        reveal_strlit("kimmy_sync_ddl_held_total{via=\"push\"}");
        reveal(is_name);
        reveal(one_line);
    }
}

proof fn lemma_webhook_kept(before: Seq<char>, after: Seq<char>)
    requires
        goes_on(before, after),
        has_webhook(before),
    ensures
        has_webhook(after),
{
    reveal(has_webhook);
}

/// The series on schema-change confirmations and divergence.
#[verifier::opaque]
pub open spec fn has_confirmation(text: Seq<char>) -> bool {
    &&& has_type(text, "kimmy_ddl_confirmations_total"@)
    &&& forall|slot: int|
        0 <= slot < 12 ==> has_sample(
            text,
            label_name(
                "kimmy_ddl_confirmations_total{outcome=\""@,
                (#[trigger] CONFIRM_OUTCOMES@[slot])@,
            ),
        )
    &&& has_type(text, "kimmy_ddl_confirm_pushes_total"@)
    &&& has_sample(text, "kimmy_ddl_confirm_pushes_total"@)
    &&& has_type(text, "kimmy_sync_ddl_relogged_total"@)
    &&& has_sample(text, "kimmy_sync_ddl_relogged_total"@)
    &&& has_type(text, "kimmy_sync_divergent_collections"@)
    &&& has_sample(text, "kimmy_sync_divergent_collections"@)
    &&& has_type(text, "kimmy_sync_divergence_checks_total"@)
    &&& has_sample(text, "kimmy_sync_divergence_checks_total{outcome=\"ran\"}"@)
    &&& has_sample(text, "kimmy_sync_divergence_checks_total{outcome=\"skipped\"}"@)
    &&& has_type(text, "kimmy_sync_divergence_count_probes_total"@)
    &&& has_sample(text, "kimmy_sync_divergence_count_probes_total{outcome=\"compared\"}"@)
    &&& has_sample(text, "kimmy_sync_divergence_count_probes_total{outcome=\"deferred\"}"@)
    &&& has_type(text, "kimmy_sync_divergence_check_age_seconds"@)
    &&& has_sample(text, "kimmy_sync_divergence_check_age_seconds"@)
}

pub broadcast proof fn lemma_confirmation(
    out: Seq<char>,
    s: MetricsSnapshot,
)
    requires
        parseable(out),
    ensures
        goes_on(out, #[trigger] confirmation_section(out, s)),
        has_confirmation(confirmation_section(out, s)),
{
    reveal(confirmation_section);
    reveal(has_confirmation);
    broadcast use group_rows;

    lemma_confirmation_help();
    assert({
        &&& is_name("kimmy_ddl_confirmations_total"@)
        &&& one_line("counter"@)
        &&& is_name("kimmy_ddl_confirm_pushes_total"@)
        &&& is_name("kimmy_sync_ddl_relogged_total"@)
        &&& is_name("kimmy_sync_divergent_collections"@)
        &&& one_line("gauge"@)
        &&& is_name("kimmy_sync_divergence_checks_total"@)
        &&& is_name("kimmy_sync_divergence_checks_total{outcome=\"ran\"}"@)
        &&& is_name("kimmy_sync_divergence_checks_total{outcome=\"skipped\"}"@)
        &&& is_name("kimmy_sync_divergence_count_probes_total"@)
        &&& is_name("kimmy_sync_divergence_count_probes_total{outcome=\"compared\"}"@)
        &&& is_name("kimmy_sync_divergence_count_probes_total{outcome=\"deferred\"}"@)
        &&& is_name("kimmy_sync_divergence_check_age_seconds"@)
    }) by {
        reveal_strlit("kimmy_ddl_confirmations_total");
        reveal_strlit("counter");
        reveal_strlit("kimmy_ddl_confirm_pushes_total");
        reveal_strlit("kimmy_sync_ddl_relogged_total");
        reveal_strlit("kimmy_sync_divergent_collections");
        reveal_strlit("gauge");
        reveal_strlit("kimmy_sync_divergence_checks_total");
        reveal_strlit("kimmy_sync_divergence_checks_total{outcome=\"ran\"}");
        reveal_strlit("kimmy_sync_divergence_checks_total{outcome=\"skipped\"}");
        reveal_strlit("kimmy_sync_divergence_count_probes_total");
        reveal_strlit("kimmy_sync_divergence_count_probes_total{outcome=\"compared\"}");
        reveal_strlit("kimmy_sync_divergence_count_probes_total{outcome=\"deferred\"}");
        reveal_strlit("kimmy_sync_divergence_check_age_seconds");
        reveal(is_name);
        reveal(one_line);
    }
}

proof fn lemma_confirmation_kept(before: Seq<char>, after: Seq<char>)
    requires
        goes_on(before, after),
        has_confirmation(before),
    ensures
        has_confirmation(after),
{
    reveal(has_confirmation);
}

/// The series on pulled entries and contacts.
#[verifier::opaque]
pub open spec fn has_sync(text: Seq<char>) -> bool {
    &&& has_type(text, "kimmy_sync_entries_skipped_total"@)
    &&& has_sample(text, "kimmy_sync_entries_skipped_total{reason=\"unknown_collection\"}"@)
    &&& has_sample(text, "kimmy_sync_entries_skipped_total{reason=\"beyond_advertised\"}"@)
    &&& has_sample(text, "kimmy_sync_entries_skipped_total{reason=\"purge_pending\"}"@)
    &&& has_type(text, "kimmy_sync_held_marks_released_total"@)
    &&& has_sample(text, "kimmy_sync_held_marks_released_total"@)
    &&& has_type(text, "kimmy_sync_held_marks"@)
    &&& has_sample(text, "kimmy_sync_held_marks"@)
    &&& has_type(text, "kimmy_sync_repair_rounds_total"@)
    &&& has_sample(text, "kimmy_sync_repair_rounds_total"@)
    &&& has_type(text, "kimmy_sync_pulled_entries_total"@)
    &&& has_sample(text, "kimmy_sync_pulled_entries_total"@)
    &&& has_type(text, "kimmy_sync_entry_wait_ahead_total"@)
    &&& has_sample(text, "kimmy_sync_entry_wait_ahead_total"@)
    &&& has_type(text, "kimmy_sync_contacts_total"@)
    &&& has_sample(text, "kimmy_sync_contacts_total{ended=\"caught_up\"}"@)
    &&& has_sample(text, "kimmy_sync_contacts_total{ended=\"budget\"}"@)
    &&& has_sample(text, "kimmy_sync_contacts_total{ended=\"ceiling\"}"@)
    &&& has_sample(text, "kimmy_sync_contacts_total{ended=\"failed\"}"@)
}

pub broadcast proof fn lemma_sync(
    out: Seq<char>,
    s: MetricsSnapshot,
)
    requires
        parseable(out),
    ensures
        goes_on(out, #[trigger] sync_section(out, s)),
        has_sync(sync_section(out, s)),
{
    reveal(sync_section);
    reveal(has_sync);
    broadcast use group_rows;

    lemma_sync_help();
    assert({
        &&& is_name("kimmy_sync_entries_skipped_total"@)
        &&& one_line("counter"@)
        &&& is_name("kimmy_sync_entries_skipped_total{reason=\"unknown_collection\"}"@)
        &&& is_name("kimmy_sync_entries_skipped_total{reason=\"beyond_advertised\"}"@)
        &&& is_name("kimmy_sync_entries_skipped_total{reason=\"purge_pending\"}"@)
        &&& is_name("kimmy_sync_held_marks_released_total"@)
        &&& is_name("kimmy_sync_held_marks"@)
        &&& one_line("gauge"@)
        &&& is_name("kimmy_sync_repair_rounds_total"@)
        &&& is_name("kimmy_sync_pulled_entries_total"@)
        &&& is_name("kimmy_sync_entry_wait_ahead_total"@)
        &&& is_name("kimmy_sync_contacts_total"@)
        &&& is_name("kimmy_sync_contacts_total{ended=\"caught_up\"}"@)
        &&& is_name("kimmy_sync_contacts_total{ended=\"budget\"}"@)
        &&& is_name("kimmy_sync_contacts_total{ended=\"ceiling\"}"@)
        &&& is_name("kimmy_sync_contacts_total{ended=\"failed\"}"@)
    }) by {
        reveal_strlit("kimmy_sync_entries_skipped_total");
        reveal_strlit("counter");
        reveal_strlit("kimmy_sync_entries_skipped_total{reason=\"unknown_collection\"}");
        reveal_strlit("kimmy_sync_entries_skipped_total{reason=\"beyond_advertised\"}");
        reveal_strlit("kimmy_sync_entries_skipped_total{reason=\"purge_pending\"}");
        reveal_strlit("kimmy_sync_held_marks_released_total");
        reveal_strlit("kimmy_sync_held_marks");
        reveal_strlit("gauge");
        reveal_strlit("kimmy_sync_repair_rounds_total");
        reveal_strlit("kimmy_sync_pulled_entries_total");
        reveal_strlit("kimmy_sync_entry_wait_ahead_total");
        reveal_strlit("kimmy_sync_contacts_total");
        reveal_strlit("kimmy_sync_contacts_total{ended=\"caught_up\"}");
        reveal_strlit("kimmy_sync_contacts_total{ended=\"budget\"}");
        reveal_strlit("kimmy_sync_contacts_total{ended=\"ceiling\"}");
        reveal_strlit("kimmy_sync_contacts_total{ended=\"failed\"}");
        reveal(is_name);
        reveal(one_line);
    }
}

proof fn lemma_sync_kept(before: Seq<char>, after: Seq<char>)
    requires
        goes_on(before, after),
        has_sync(before),
    ensures
        has_sync(after),
{
    reveal(has_sync);
}

/// The series on certificates, keys and embedding.
#[verifier::opaque]
pub open spec fn has_embed(text: Seq<char>) -> bool {
    &&& has_type(text, "kimmy_tls_reloads_total"@)
    &&& has_sample(text, "kimmy_tls_reloads_total{outcome=\"ok\"}"@)
    &&& has_sample(text, "kimmy_tls_reloads_total{outcome=\"failed\"}"@)
    &&& has_type(text, "kimmy_jwks_refresh_total"@)
    &&& has_sample(text, "kimmy_jwks_refresh_total{outcome=\"ok\"}"@)
    &&& has_sample(text, "kimmy_jwks_refresh_total{outcome=\"failed\"}"@)
    &&& has_type(text, "kimmy_embed_documents_total"@)
    &&& has_sample(text, "kimmy_embed_documents_total"@)
    &&& has_type(text, "kimmy_embed_chunks_total"@)
    &&& has_sample(text, "kimmy_embed_chunks_total"@)
    &&& has_type(text, "kimmy_embed_deferred_total"@)
    &&& has_sample(text, "kimmy_embed_deferred_total"@)
    &&& has_type(text, "kimmy_embed_skipped_not_owned_total"@)
    &&& has_sample(text, "kimmy_embed_skipped_not_owned_total"@)
    &&& has_type(text, "kimmy_embed_skipped_no_shadow_total"@)
    &&& has_sample(text, "kimmy_embed_skipped_no_shadow_total"@)
    &&& has_type(text, "kimmy_embed_failures_total"@)
    &&& has_sample(text, "kimmy_embed_failures_total"@)
    &&& has_type(text, "kimmy_embed_provider_errors_total"@)
    &&& has_sample(text, "kimmy_embed_provider_errors_total{kind=\"connect\"}"@)
    &&& has_sample(text, "kimmy_embed_provider_errors_total{kind=\"timeout\"}"@)
    &&& has_sample(text, "kimmy_embed_provider_errors_total{kind=\"reset\"}"@)
    &&& has_sample(text, "kimmy_embed_provider_errors_total{kind=\"other\"}"@)
    &&& has_type(text, "kimmy_embed_provider_requests_total"@)
    &&& has_sample(text, "kimmy_embed_provider_requests_total"@)
    &&& has_type(text, "kimmy_embed_provider_tokens_total"@)
    &&& has_sample(text, "kimmy_embed_provider_tokens_total"@)
}

pub broadcast proof fn lemma_embed(
    out: Seq<char>,
    s: MetricsSnapshot,
)
    requires
        parseable(out),
    ensures
        goes_on(out, #[trigger] embed_section(out, s)),
        has_embed(embed_section(out, s)),
{
    reveal(embed_section);
    reveal(has_embed);
    broadcast use group_rows;

    lemma_embed_help();
    assert({
        &&& is_name("kimmy_tls_reloads_total"@)
        &&& one_line("counter"@)
        &&& is_name("kimmy_tls_reloads_total{outcome=\"ok\"}"@)
        &&& is_name("kimmy_tls_reloads_total{outcome=\"failed\"}"@)
        &&& is_name("kimmy_jwks_refresh_total"@)
        &&& is_name("kimmy_jwks_refresh_total{outcome=\"ok\"}"@)
        &&& is_name("kimmy_jwks_refresh_total{outcome=\"failed\"}"@)
        &&& is_name("kimmy_embed_documents_total"@)
        &&& is_name("kimmy_embed_chunks_total"@)
        &&& is_name("kimmy_embed_deferred_total"@)
        &&& is_name("kimmy_embed_skipped_not_owned_total"@)
        &&& is_name("kimmy_embed_skipped_no_shadow_total"@)
        &&& is_name("kimmy_embed_failures_total"@)
        &&& is_name("kimmy_embed_provider_errors_total"@)
        &&& is_name("kimmy_embed_provider_errors_total{kind=\"connect\"}"@)
        &&& is_name("kimmy_embed_provider_errors_total{kind=\"timeout\"}"@)
        &&& is_name("kimmy_embed_provider_errors_total{kind=\"reset\"}"@)
        &&& is_name("kimmy_embed_provider_errors_total{kind=\"other\"}"@)
        &&& is_name("kimmy_embed_provider_requests_total"@)
        &&& is_name("kimmy_embed_provider_tokens_total"@)
    }) by {
        reveal_strlit("kimmy_tls_reloads_total");
        reveal_strlit("counter");
        reveal_strlit("kimmy_tls_reloads_total{outcome=\"ok\"}");
        reveal_strlit("kimmy_tls_reloads_total{outcome=\"failed\"}");
        reveal_strlit("kimmy_jwks_refresh_total");
        reveal_strlit("kimmy_jwks_refresh_total{outcome=\"ok\"}");
        reveal_strlit("kimmy_jwks_refresh_total{outcome=\"failed\"}");
        reveal_strlit("kimmy_embed_documents_total");
        reveal_strlit("kimmy_embed_chunks_total");
        reveal_strlit("kimmy_embed_deferred_total");
        reveal_strlit("kimmy_embed_skipped_not_owned_total");
        reveal_strlit("kimmy_embed_skipped_no_shadow_total");
        reveal_strlit("kimmy_embed_failures_total");
        reveal_strlit("kimmy_embed_provider_errors_total");
        reveal_strlit("kimmy_embed_provider_errors_total{kind=\"connect\"}");
        reveal_strlit("kimmy_embed_provider_errors_total{kind=\"timeout\"}");
        reveal_strlit("kimmy_embed_provider_errors_total{kind=\"reset\"}");
        reveal_strlit("kimmy_embed_provider_errors_total{kind=\"other\"}");
        reveal_strlit("kimmy_embed_provider_requests_total");
        reveal_strlit("kimmy_embed_provider_tokens_total");
        reveal(is_name);
        reveal(one_line);
    }
}

proof fn lemma_embed_kept(before: Seq<char>, after: Seq<char>)
    requires
        goes_on(before, after),
        has_embed(before),
    ensures
        has_embed(after),
{
    reveal(has_embed);
}

/// The series on how long requests took.
#[verifier::opaque]
pub open spec fn has_latency(text: Seq<char>) -> bool {
    &&& has_type(text, "kimmy_request_duration_seconds"@)
    &&& has_histogram(text, "kimmy_request_duration_seconds"@, ""@, LATENCY_BUCKETS_US@)
}

pub broadcast proof fn lemma_latency(
    out: Seq<char>,
    s: MetricsSnapshot,
    buckets: Seq<u64>,
)
    requires
        parseable(out),
    ensures
        goes_on(out, #[trigger] latency(out, s, buckets)),
        has_latency(latency(out, s, buckets)),
{
    reveal(latency);
    reveal(has_latency);
    broadcast use group_rows;

    lemma_latency_help();
    assert({
        &&& is_name("kimmy_request_duration_seconds"@)
        &&& one_line("histogram"@)
        &&& one_line(""@)
    }) by {
        reveal_strlit("kimmy_request_duration_seconds");
        reveal_strlit("histogram");
        reveal_strlit("");
        reveal(is_name);
        reveal(one_line);
    }
}

proof fn lemma_latency_kept(before: Seq<char>, after: Seq<char>)
    requires
        goes_on(before, after),
        has_latency(before),
    ensures
        has_latency(after),
{
    reveal(has_latency);
}

/// The series on how long backups took.
#[verifier::opaque]
pub open spec fn has_backup_duration(text: Seq<char>) -> bool {
    &&& has_type(text, "kimmy_backup_duration_seconds"@)
    &&& has_histogram(text, "kimmy_backup_duration_seconds"@, ""@, BACKUP_BUCKETS_US@)
}

pub broadcast proof fn lemma_backup_duration(
    out: Seq<char>,
    s: MetricsSnapshot,
    buckets: Seq<u64>,
)
    requires
        parseable(out),
    ensures
        goes_on(out, #[trigger] backup_duration(out, s, buckets)),
        has_backup_duration(backup_duration(out, s, buckets)),
{
    reveal(backup_duration);
    reveal(has_backup_duration);
    broadcast use group_rows;

    lemma_backup_duration_help();
    assert({
        &&& is_name("kimmy_backup_duration_seconds"@)
        &&& one_line("histogram"@)
        &&& one_line(""@)
    }) by {
        reveal_strlit("kimmy_backup_duration_seconds");
        reveal_strlit("histogram");
        reveal_strlit("");
        reveal(is_name);
        reveal(one_line);
    }
}

proof fn lemma_backup_duration_kept(before: Seq<char>, after: Seq<char>)
    requires
        goes_on(before, after),
        has_backup_duration(before),
    ensures
        has_backup_duration(after),
{
    reveal(has_backup_duration);
}

/// The series on how long pulls took.
#[verifier::opaque]
pub open spec fn has_sync_pulls(text: Seq<char>) -> bool {
    &&& has_type(text, "kimmy_sync_pull_seconds"@)
    &&& has_histogram(text, "kimmy_sync_pull_seconds"@, "phase=\"serve\""@, PULL_BUCKETS_US@)
    &&& has_histogram(text, "kimmy_sync_pull_seconds"@, "phase=\"wait\""@, PULL_BUCKETS_US@)
    &&& has_histogram(text, "kimmy_sync_pull_seconds"@, "phase=\"apply\""@, PULL_BUCKETS_US@)
    &&& has_type(text, "kimmy_sync_entry_wait_seconds"@)
    &&& has_histogram(text, "kimmy_sync_entry_wait_seconds"@, ""@, ENTRY_WAIT_BUCKETS_US@)
}

pub broadcast proof fn lemma_sync_pulls(
    out: Seq<char>,
    pulls: PullReport,
)
    requires
        parseable(out),
    ensures
        goes_on(out, #[trigger] sync_pulls(out, pulls)),
        has_sync_pulls(sync_pulls(out, pulls)),
{
    reveal(sync_pulls);
    reveal(has_sync_pulls);
    broadcast use group_rows;

    lemma_sync_pulls_help();
    assert({
        &&& is_name("kimmy_sync_pull_seconds"@)
        &&& one_line("histogram"@)
        &&& one_line("phase=\"serve\""@)
        &&& one_line("phase=\"wait\""@)
        &&& one_line("phase=\"apply\""@)
        &&& is_name("kimmy_sync_entry_wait_seconds"@)
        &&& one_line(""@)
    }) by {
        reveal_strlit("kimmy_sync_pull_seconds");
        reveal_strlit("histogram");
        reveal_strlit("phase=\"serve\"");
        reveal_strlit("phase=\"wait\"");
        reveal_strlit("phase=\"apply\"");
        reveal_strlit("kimmy_sync_entry_wait_seconds");
        reveal_strlit("");
        reveal(is_name);
        reveal(one_line);
    }
}

proof fn lemma_sync_pulls_kept(before: Seq<char>, after: Seq<char>)
    requires
        goes_on(before, after),
        has_sync_pulls(before),
    ensures
        has_sync_pulls(after),
{
    reveal(has_sync_pulls);
}

/// The series on what this node served.
#[verifier::opaque]
pub open spec fn has_sync_serve(text: Seq<char>) -> bool {
    &&& has_type(text, "kimmy_sync_served_windows_total"@)
    &&& has_sample(text, "kimmy_sync_served_windows_total"@)
    &&& has_type(text, "kimmy_sync_served_entries_total"@)
    &&& has_sample(text, "kimmy_sync_served_entries_total"@)
    &&& has_type(text, "kimmy_sync_serve_passed_entries_total"@)
    &&& has_sample(text, "kimmy_sync_serve_passed_entries_total"@)
    &&& has_type(text, "kimmy_sync_serve_walk_read_seconds_total"@)
    &&& has_sample(text, "kimmy_sync_serve_walk_read_seconds_total"@)
    &&& has_type(text, "kimmy_sync_serve_walk_read_bytes_total"@)
    &&& has_sample(text, "kimmy_sync_serve_walk_read_bytes_total"@)
    &&& has_type(text, "kimmy_sync_serve_walk_seconds"@)
    &&& has_histogram(text, "kimmy_sync_serve_walk_seconds"@, ""@, SERVE_WALK_BUCKETS_US@)
}

pub broadcast proof fn lemma_sync_serve(
    out: Seq<char>,
    serve: ServeSnapshot,
)
    requires
        parseable(out),
    ensures
        goes_on(out, #[trigger] sync_serve(out, serve)),
        has_sync_serve(sync_serve(out, serve)),
{
    reveal(sync_serve);
    reveal(has_sync_serve);
    broadcast use group_rows;

    lemma_sync_serve_help();
    assert({
        &&& is_name("kimmy_sync_served_windows_total"@)
        &&& one_line("counter"@)
        &&& is_name("kimmy_sync_served_entries_total"@)
        &&& is_name("kimmy_sync_serve_passed_entries_total"@)
        &&& is_name("kimmy_sync_serve_walk_read_seconds_total"@)
        &&& is_name("kimmy_sync_serve_walk_read_bytes_total"@)
        &&& is_name("kimmy_sync_serve_walk_seconds"@)
        &&& one_line("histogram"@)
        &&& one_line(""@)
    }) by {
        reveal_strlit("kimmy_sync_served_windows_total");
        reveal_strlit("counter");
        reveal_strlit("kimmy_sync_served_entries_total");
        reveal_strlit("kimmy_sync_serve_passed_entries_total");
        reveal_strlit("kimmy_sync_serve_walk_read_seconds_total");
        reveal_strlit("kimmy_sync_serve_walk_read_bytes_total");
        reveal_strlit("kimmy_sync_serve_walk_seconds");
        reveal_strlit("histogram");
        reveal_strlit("");
        reveal(is_name);
        reveal(one_line);
    }
}

broadcast group group_sections {
    lemma_engine,
    lemma_process,
    lemma_request,
    lemma_webhook,
    lemma_confirmation,
    lemma_sync,
    lemma_embed,
    lemma_latency,
    lemma_backup_duration,
    lemma_sync_pulls,
    lemma_sync_serve,
}

/// Whether every series of the page is there, each with all of its samples. Only
/// which progress ages are there depends on the node: on the background writers it
/// runs.
pub open spec fn has_every_series(text: Seq<char>) -> bool {
    &&& has_engine(text)
    &&& has_process(text)
    &&& has_request(text)
    &&& has_webhook(text)
    &&& has_confirmation(text)
    &&& has_sync(text)
    &&& has_embed(text)
    &&& has_latency(text)
    &&& has_backup_duration(text)
    &&& has_sync_pulls(text)
    &&& has_sync_serve(text)
}

/// Every line of the page is a HELP or a TYPE line, or a sample that ends in a
/// number.
pub proof fn every_line_is_a_comment_or_a_sample(
    s: MetricsSnapshot,
    latency_buckets: Seq<u64>,
    backup_buckets: Seq<u64>,
    wait: WriterWaitSnapshot,
    hold: WriterHoldSnapshot,
    retries: Seq<u64>,
)
    ensures
        parseable(page(s, latency_buckets, backup_buckets, wait, hold, retries)),
{
    broadcast use group_sections;

    assert(parseable(Seq::<char>::empty())) by {
        reveal(parseable);
    }
}

/// Every series is on the page with every sample of it, whatever has been counted,
/// and so is the progress age of each background writer that this node runs.
pub proof fn every_series_is_there(
    s: MetricsSnapshot,
    latency_buckets: Seq<u64>,
    backup_buckets: Seq<u64>,
    wait: WriterWaitSnapshot,
    hold: WriterHoldSnapshot,
    retries: Seq<u64>,
)
    ensures
        has_every_series(page(s, latency_buckets, backup_buckets, wait, hold, retries)),
        has_progress(page(s, latency_buckets, backup_buckets, wait, hold, retries), s),
{
    broadcast use group_sections;

    assert(parseable(Seq::<char>::empty())) by {
        reveal(parseable);
    }
    let engine = engine_section(Seq::empty(), s, wait, hold);
    let process = process_section(engine, s, retries);
    let request = request_section(process, s);
    let webhook = webhook_section(request, s);
    let confirmation = confirmation_section(webhook, s);
    let sync = sync_section(confirmation, s);
    let embed = embed_section(sync, s);
    let timed = latency(embed, s, latency_buckets);
    let backed_up = backup_duration(timed, s, backup_buckets);
    let pulled = sync_pulls(backed_up, s.sync_pulls);
    let whole = sync_serve(pulled, s.sync_serve);
    lemma_engine_kept(engine, whole);
    lemma_process_kept(process, whole);
    lemma_request_kept(request, whole);
    lemma_webhook_kept(webhook, whole);
    lemma_confirmation_kept(confirmation, whole);
    lemma_sync_kept(sync, whole);
    lemma_embed_kept(embed, whole);
    lemma_latency_kept(timed, whole);
    lemma_backup_duration_kept(backed_up, whole);
    lemma_sync_pulls_kept(pulled, whole);
}

} // verus!
