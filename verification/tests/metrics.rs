use kimmy_api::metrics::{
    progress_slot, ConfirmOutcome, EntryWaitHistogram, HoldDecomposition, LiveReadings, Metrics,
    ProcessMemory, PullHistogram, PullReport, RoundReport, ServeSnapshot, StorageReadings,
    SyncOutcome, WorkerCounters, WriterHoldSnapshot, WriterWaitSnapshot, CONFIRM_OUTCOMES,
    ENTRY_WAIT_BUCKETS_US, HOLD_COMPONENTS, HOLD_PHASES, PROGRESS_WRITERS, PULL_BUCKETS_US, TASKS,
    WRITER_HOLDERS, WRITER_HOLD_BUCKETS_US,
};

const SEC: u64 = 1_000_000_000;

/// Far enough from the clock's origin for every instant the tests subtract.
const START: u64 = 10_000 * SEC;

const CONTACT_ENDS: [&str; 4] = ["caught_up", "budget", "ceiling", "failed"];

const OUTCOMES: [ConfirmOutcome; 12] = [
    ConfirmOutcome::Confirmed,
    ConfirmOutcome::Refused,
    ConfirmOutcome::Timeout,
    ConfirmOutcome::Failed,
    ConfirmOutcome::Unreached,
    ConfirmOutcome::Purging,
    ConfirmOutcome::StoppedUnknown,
    ConfirmOutcome::OtherMember,
    ConfirmOutcome::TaskEnded,
    ConfirmOutcome::Backoff,
    ConfirmOutcome::Unattributable,
    ConfirmOutcome::Cancelled,
];

fn fresh() -> Metrics {
    Metrics::new(START)
}

fn observed(ms: u64) -> PullHistogram {
    let us = ms * 1_000;
    let mut buckets = [0; 16];
    if let Some(slot) = PULL_BUCKETS_US.iter().position(|bound| us <= *bound) {
        buckets[slot] = 1;
    }
    PullHistogram { buckets, count: 1, sum_us: us }
}

/// A tick's pull report: one pull observed at `[serve, wait, apply]`
/// milliseconds carrying `entries`, its oldest lacked entry having waited
/// `waited` milliseconds, `ahead` pulls that could not observe one, and
/// contacts by how they ended.
fn pulls_observed(
    [serve, wait, apply]: [u64; 3],
    entries: u64,
    waited: u64,
    ahead: u64,
    contacts: [u64; 4],
) -> PullReport {
    let us = waited * 1_000;
    let mut buckets = [0; 11];
    if let Some(slot) = ENTRY_WAIT_BUCKETS_US.iter().position(|bound| us <= *bound) {
        buckets[slot] = 1;
    }
    PullReport {
        serve: observed(serve),
        wait: observed(wait),
        apply: observed(apply),
        entry_wait: EntryWaitHistogram { buckets, count: 1, sum_us: us },
        entries,
        entry_wait_ahead: ahead,
        contacts,
    }
}

fn round() -> RoundReport {
    RoundReport {
        failed: 0,
        backing_off: 0,
        ddl_applied: 0,
        ddl_held: 0,
        ddl_refused: 0,
        ddl_declined: 0,
        divergent_collections: 0,
        divergence_checks: 0,
        divergence_skips: 0,
        divergence_count_compared: 0,
        divergence_count_deferred: 0,
        divergence_last_check: None,
        last_completed_round: None,
        entries_skipped_unknown_collection: 0,
        entries_skipped_beyond_advertised: 0,
        entries_skipped_purge_pending: 0,
        repair_rounds: 0,
        pulls: PullReport::default(),
    }
}

/// One instance with every counter at a value nothing else has: with several
/// counters sharing a value, a render that printed the wrong one would still
/// match.
fn every_counter_distinct(now: u64) -> Metrics {
    let mut m = fresh();
    for _ in 0..2 {
        m.record_request(200);
    }
    m.record_request(401);
    m.record_request(403);
    m.record_request(429);
    for _ in 0..4 {
        m.record_request(500);
    }
    m.record_request(304);

    for _ in 0..5 {
        m.record_principal_rate_limited();
    }

    m.record_backup(42_000_000);
    m.record_expiry(11, 12, 93);
    m.record_webhook_delivery(true, 13);
    m.record_webhook_delivery(true, 14);
    m.record_webhook_delivery(false, 0);
    m.set_webhook_backlog(17, now - 85 * SEC);
    m.set_replication_lag_ms(19_250);
    m.record_sync_round(&RoundReport {
        failed: 20,
        backing_off: 99,
        ddl_applied: 83,
        ddl_held: 43,
        ddl_refused: 21,
        ddl_declined: 28,
        divergent_collections: 12,
        divergence_checks: 30,
        divergence_skips: 33,
        divergence_count_compared: 61,
        divergence_count_deferred: 64,
        divergence_last_check: Some(now - 70 * SEC),
        last_completed_round: Some(now - 80 * SEC),
        entries_skipped_unknown_collection: 72,
        entries_skipped_beyond_advertised: 74,
        entries_skipped_purge_pending: 77,
        repair_rounds: 76,
        pulls: pulls_observed([3, 40, 700], 1_024, 1_500, 115, [101, 102, 103, 104]),
    });
    m.record_sync_round(&RoundReport {
        failed: 3,
        backing_off: 24,
        ddl_applied: 6,
        ddl_held: 5,
        ddl_refused: 4,
        ddl_declined: 8,
        divergent_collections: 5,
        divergence_checks: 2,
        divergence_skips: 1,
        divergence_count_compared: 2,
        divergence_count_deferred: 3,
        divergence_last_check: Some(now - 71 * SEC),
        last_completed_round: Some(now - 81 * SEC),
        entries_skipped_unknown_collection: 1,
        entries_skipped_beyond_advertised: 1,
        entries_skipped_purge_pending: 1,
        repair_rounds: 1,
        pulls: pulls_observed([8, 45_000, 3_000], 81, 45_000, 2, [10, 10, 10, 10]),
    });
    m.record_ddl_applied_push(97);
    m.record_ddl_held_push(58);
    for outcome in OUTCOMES {
        for _ in 0..(120 + outcome.slot()) {
            m.record_ddl_confirmation(outcome);
        }
    }
    for _ in 0..137 {
        m.record_ddl_confirm_push();
    }
    for _ in 0..20 {
        m.record_tls_reload(true);
    }
    m.record_tls_reload(false);
    for _ in 0..22 {
        m.record_jwks_refresh(true);
    }
    m.record_jwks_refresh(false);

    m.record_latency(90);
    m.record_latency(400);
    m.record_latency(30_000);
    m.record_runtime_stall(0, now - 83 * SEC);
    m
}

/// The hold histogram with every holder's row distinct from every other's, so a
/// row rendered under the wrong label cannot match.
fn distinct_hold() -> WriterHoldSnapshot {
    let top = WRITER_HOLD_BUCKETS_US.len() - 1;
    let mut hold =
        WriterHoldSnapshot { buckets: [[0; 7]; 12], count: [0; 12], sum_us: [0; 12] };
    for row in 0..WRITER_HOLDERS.len() {
        hold.buckets[row][row % (top + 1)] += row as u64 + 1;
        hold.buckets[row][top] += 1;
        hold.count[row] = row as u64 + 3;
        hold.sum_us[row] = (row as u64 + 1) * 1_500_000;
    }
    hold
}

/// What the holds were made of, every value distinct from every other.
fn distinct_decomposition() -> HoldDecomposition {
    let ms = |n: usize| n as u64 * 1_000_000;
    HoldDecomposition {
        component_ns: std::array::from_fn(|h| std::array::from_fn(|c| ms((h + 1) * 100 + c + 1))),
        phase_ns: std::array::from_fn(|h| std::array::from_fn(|p| ms((h + 1) * 100 + p + 11))),
        read_bytes: std::array::from_fn(|h| (h as u64 + 1) * 1_000 + 1),
        write_bytes: std::array::from_fn(|h| (h as u64 + 1) * 1_000 + 2),
        write_estimated_ns: std::array::from_fn(|h| ms((h + 1) * 100 + 21)),
        overcounted: std::array::from_fn(|h| h as u64 + 61),
        cpu_unmeasured: 99,
    }
}

/// The engine's readings, every one distinct from every counter above and from
/// each other.
fn distinct_readings() -> StorageReadings {
    StorageReadings {
        databases: 41,
        collections: 42,
        unique_violations: 43,
        commits: 44,
        fsyncs: 45,
        commits_grouped: 46,
        storage_bytes: 47,
        vector_index_cache_bytes: 48,
        process_resident_bytes: 49,
        process_resident_peak_bytes: 50,
        index_unkeyed: 26,
        index_undecidable: 37,
        sync_ddl_relogged: 91,
        webhook_active: 15,
        webhook_invalidated: 16,
        webhook_unreadable: 38,
        cluster_members: 18,
        writer_wait: WriterWaitSnapshot {
            buckets: [1, 2, 0, 0, 3, 0, 0, 1],
            count: 8,
            sum_us: 6_500_000,
        },
        writer_wait_timeouts: 51,
        writer_hold_max_us: 52_500_000,
        held_marks_released: 53,
        held_marks: 54,
        writer_hold: distinct_hold(),
        writer_hold_decomposition: distinct_decomposition(),
        serve: ServeSnapshot {
            windows: 1_201,
            entries: 1_202,
            passed: 1_203,
            walk_buckets: [3, 0, 1_190, 0, 0, 0, 0, 0, 0, 0, 0, 7],
            walk_sum_us: 2_500_000,
            read_ns: 3_300_000_000,
            read_bytes: 1_204,
        },
    }
}

/// The page a moment before a hundred seconds after the start, read by a clock
/// that has not moved.
fn golden_moment() -> (u64, LiveReadings) {
    (START + 100 * SEC - 1, LiveReadings::at(START))
}

#[test]
fn the_render_is_byte_for_byte_what_a_scrape_receives() {
    let expected = "\
# HELP kimmy_databases Number of databases.
# TYPE kimmy_databases gauge
kimmy_databases 41
# HELP kimmy_collections Number of collections across all databases.
# TYPE kimmy_collections gauge
kimmy_collections 42
# HELP kimmy_unique_violations Unique constraints broken by merging replicated writes.
# TYPE kimmy_unique_violations counter
kimmy_unique_violations 43
# HELP kimmy_commits Durable write transactions committed by the storage engine.
# TYPE kimmy_commits counter
kimmy_commits 44
# HELP kimmy_fsyncs Times the disk was asked to make something durable: one per commit under durable, one per shared flush under coalesced.
# TYPE kimmy_fsyncs counter
kimmy_fsyncs 45
# HELP kimmy_commits_grouped_total Commits made durable by a shared flush rather than their own fsync.
# TYPE kimmy_commits_grouped_total counter
kimmy_commits_grouped_total 46
# HELP kimmy_write_lock_wait_seconds How long a write transaction waited for the storage writer before it could begin. The part of a write's latency that is not its own work: a bulk, a repair or a retention pass holding the writer shows here on every other write.
# TYPE kimmy_write_lock_wait_seconds histogram
kimmy_write_lock_wait_seconds_bucket{le=\"0.001\"} 1
kimmy_write_lock_wait_seconds_bucket{le=\"0.005\"} 3
kimmy_write_lock_wait_seconds_bucket{le=\"0.025\"} 3
kimmy_write_lock_wait_seconds_bucket{le=\"0.1\"} 3
kimmy_write_lock_wait_seconds_bucket{le=\"0.5\"} 6
kimmy_write_lock_wait_seconds_bucket{le=\"1\"} 6
kimmy_write_lock_wait_seconds_bucket{le=\"5\"} 6
kimmy_write_lock_wait_seconds_bucket{le=\"30\"} 7
kimmy_write_lock_wait_seconds_bucket{le=\"+Inf\"} 8
kimmy_write_lock_wait_seconds_sum 6.5
kimmy_write_lock_wait_seconds_count 8
# HELP kimmy_write_lock_wait_timeouts_total Writes that gave up waiting for the storage writer inside server.request_timeout_secs; nothing was written and the client was told to retry.
# TYPE kimmy_write_lock_wait_timeouts_total counter
kimmy_write_lock_wait_timeouts_total 51
# HELP kimmy_write_lock_held_seconds_max The longest any one transaction has held the storage writer since start. Every other write on the node waited behind it.
# TYPE kimmy_write_lock_held_seconds_max gauge
kimmy_write_lock_held_seconds_max 52.5
# HELP kimmy_write_lock_held_seconds How long a transaction held the storage writer, by what held it. Every other write on the node waited behind the hold, so this is the cause kimmy_write_lock_wait_seconds is the effect of.
# TYPE kimmy_write_lock_held_seconds histogram
kimmy_write_lock_held_seconds_bucket{holder=\"write\",le=\"0.001\"} 1
kimmy_write_lock_held_seconds_bucket{holder=\"write\",le=\"0.01\"} 1
kimmy_write_lock_held_seconds_bucket{holder=\"write\",le=\"0.1\"} 1
kimmy_write_lock_held_seconds_bucket{holder=\"write\",le=\"1\"} 1
kimmy_write_lock_held_seconds_bucket{holder=\"write\",le=\"5\"} 1
kimmy_write_lock_held_seconds_bucket{holder=\"write\",le=\"30\"} 1
kimmy_write_lock_held_seconds_bucket{holder=\"write\",le=\"300\"} 2
kimmy_write_lock_held_seconds_bucket{holder=\"write\",le=\"+Inf\"} 3
kimmy_write_lock_held_seconds_sum{holder=\"write\"} 1.5
kimmy_write_lock_held_seconds_count{holder=\"write\"} 3
kimmy_write_lock_held_seconds_bucket{holder=\"bulk\",le=\"0.001\"} 0
kimmy_write_lock_held_seconds_bucket{holder=\"bulk\",le=\"0.01\"} 2
kimmy_write_lock_held_seconds_bucket{holder=\"bulk\",le=\"0.1\"} 2
kimmy_write_lock_held_seconds_bucket{holder=\"bulk\",le=\"1\"} 2
kimmy_write_lock_held_seconds_bucket{holder=\"bulk\",le=\"5\"} 2
kimmy_write_lock_held_seconds_bucket{holder=\"bulk\",le=\"30\"} 2
kimmy_write_lock_held_seconds_bucket{holder=\"bulk\",le=\"300\"} 3
kimmy_write_lock_held_seconds_bucket{holder=\"bulk\",le=\"+Inf\"} 4
kimmy_write_lock_held_seconds_sum{holder=\"bulk\"} 3
kimmy_write_lock_held_seconds_count{holder=\"bulk\"} 4
kimmy_write_lock_held_seconds_bucket{holder=\"ddl\",le=\"0.001\"} 0
kimmy_write_lock_held_seconds_bucket{holder=\"ddl\",le=\"0.01\"} 0
kimmy_write_lock_held_seconds_bucket{holder=\"ddl\",le=\"0.1\"} 3
kimmy_write_lock_held_seconds_bucket{holder=\"ddl\",le=\"1\"} 3
kimmy_write_lock_held_seconds_bucket{holder=\"ddl\",le=\"5\"} 3
kimmy_write_lock_held_seconds_bucket{holder=\"ddl\",le=\"30\"} 3
kimmy_write_lock_held_seconds_bucket{holder=\"ddl\",le=\"300\"} 4
kimmy_write_lock_held_seconds_bucket{holder=\"ddl\",le=\"+Inf\"} 5
kimmy_write_lock_held_seconds_sum{holder=\"ddl\"} 4.5
kimmy_write_lock_held_seconds_count{holder=\"ddl\"} 5
kimmy_write_lock_held_seconds_bucket{holder=\"index_build\",le=\"0.001\"} 0
kimmy_write_lock_held_seconds_bucket{holder=\"index_build\",le=\"0.01\"} 0
kimmy_write_lock_held_seconds_bucket{holder=\"index_build\",le=\"0.1\"} 0
kimmy_write_lock_held_seconds_bucket{holder=\"index_build\",le=\"1\"} 4
kimmy_write_lock_held_seconds_bucket{holder=\"index_build\",le=\"5\"} 4
kimmy_write_lock_held_seconds_bucket{holder=\"index_build\",le=\"30\"} 4
kimmy_write_lock_held_seconds_bucket{holder=\"index_build\",le=\"300\"} 5
kimmy_write_lock_held_seconds_bucket{holder=\"index_build\",le=\"+Inf\"} 6
kimmy_write_lock_held_seconds_sum{holder=\"index_build\"} 6
kimmy_write_lock_held_seconds_count{holder=\"index_build\"} 6
kimmy_write_lock_held_seconds_bucket{holder=\"drop\",le=\"0.001\"} 0
kimmy_write_lock_held_seconds_bucket{holder=\"drop\",le=\"0.01\"} 0
kimmy_write_lock_held_seconds_bucket{holder=\"drop\",le=\"0.1\"} 0
kimmy_write_lock_held_seconds_bucket{holder=\"drop\",le=\"1\"} 0
kimmy_write_lock_held_seconds_bucket{holder=\"drop\",le=\"5\"} 5
kimmy_write_lock_held_seconds_bucket{holder=\"drop\",le=\"30\"} 5
kimmy_write_lock_held_seconds_bucket{holder=\"drop\",le=\"300\"} 6
kimmy_write_lock_held_seconds_bucket{holder=\"drop\",le=\"+Inf\"} 7
kimmy_write_lock_held_seconds_sum{holder=\"drop\"} 7.5
kimmy_write_lock_held_seconds_count{holder=\"drop\"} 7
kimmy_write_lock_held_seconds_bucket{holder=\"replication\",le=\"0.001\"} 0
kimmy_write_lock_held_seconds_bucket{holder=\"replication\",le=\"0.01\"} 0
kimmy_write_lock_held_seconds_bucket{holder=\"replication\",le=\"0.1\"} 0
kimmy_write_lock_held_seconds_bucket{holder=\"replication\",le=\"1\"} 0
kimmy_write_lock_held_seconds_bucket{holder=\"replication\",le=\"5\"} 0
kimmy_write_lock_held_seconds_bucket{holder=\"replication\",le=\"30\"} 6
kimmy_write_lock_held_seconds_bucket{holder=\"replication\",le=\"300\"} 7
kimmy_write_lock_held_seconds_bucket{holder=\"replication\",le=\"+Inf\"} 8
kimmy_write_lock_held_seconds_sum{holder=\"replication\"} 9
kimmy_write_lock_held_seconds_count{holder=\"replication\"} 8
kimmy_write_lock_held_seconds_bucket{holder=\"repair\",le=\"0.001\"} 0
kimmy_write_lock_held_seconds_bucket{holder=\"repair\",le=\"0.01\"} 0
kimmy_write_lock_held_seconds_bucket{holder=\"repair\",le=\"0.1\"} 0
kimmy_write_lock_held_seconds_bucket{holder=\"repair\",le=\"1\"} 0
kimmy_write_lock_held_seconds_bucket{holder=\"repair\",le=\"5\"} 0
kimmy_write_lock_held_seconds_bucket{holder=\"repair\",le=\"30\"} 0
kimmy_write_lock_held_seconds_bucket{holder=\"repair\",le=\"300\"} 8
kimmy_write_lock_held_seconds_bucket{holder=\"repair\",le=\"+Inf\"} 9
kimmy_write_lock_held_seconds_sum{holder=\"repair\"} 10.5
kimmy_write_lock_held_seconds_count{holder=\"repair\"} 9
kimmy_write_lock_held_seconds_bucket{holder=\"retention\",le=\"0.001\"} 8
kimmy_write_lock_held_seconds_bucket{holder=\"retention\",le=\"0.01\"} 8
kimmy_write_lock_held_seconds_bucket{holder=\"retention\",le=\"0.1\"} 8
kimmy_write_lock_held_seconds_bucket{holder=\"retention\",le=\"1\"} 8
kimmy_write_lock_held_seconds_bucket{holder=\"retention\",le=\"5\"} 8
kimmy_write_lock_held_seconds_bucket{holder=\"retention\",le=\"30\"} 8
kimmy_write_lock_held_seconds_bucket{holder=\"retention\",le=\"300\"} 9
kimmy_write_lock_held_seconds_bucket{holder=\"retention\",le=\"+Inf\"} 10
kimmy_write_lock_held_seconds_sum{holder=\"retention\"} 12
kimmy_write_lock_held_seconds_count{holder=\"retention\"} 10
kimmy_write_lock_held_seconds_bucket{holder=\"expiry\",le=\"0.001\"} 0
kimmy_write_lock_held_seconds_bucket{holder=\"expiry\",le=\"0.01\"} 9
kimmy_write_lock_held_seconds_bucket{holder=\"expiry\",le=\"0.1\"} 9
kimmy_write_lock_held_seconds_bucket{holder=\"expiry\",le=\"1\"} 9
kimmy_write_lock_held_seconds_bucket{holder=\"expiry\",le=\"5\"} 9
kimmy_write_lock_held_seconds_bucket{holder=\"expiry\",le=\"30\"} 9
kimmy_write_lock_held_seconds_bucket{holder=\"expiry\",le=\"300\"} 10
kimmy_write_lock_held_seconds_bucket{holder=\"expiry\",le=\"+Inf\"} 11
kimmy_write_lock_held_seconds_sum{holder=\"expiry\"} 13.5
kimmy_write_lock_held_seconds_count{holder=\"expiry\"} 11
kimmy_write_lock_held_seconds_bucket{holder=\"embedding\",le=\"0.001\"} 0
kimmy_write_lock_held_seconds_bucket{holder=\"embedding\",le=\"0.01\"} 0
kimmy_write_lock_held_seconds_bucket{holder=\"embedding\",le=\"0.1\"} 10
kimmy_write_lock_held_seconds_bucket{holder=\"embedding\",le=\"1\"} 10
kimmy_write_lock_held_seconds_bucket{holder=\"embedding\",le=\"5\"} 10
kimmy_write_lock_held_seconds_bucket{holder=\"embedding\",le=\"30\"} 10
kimmy_write_lock_held_seconds_bucket{holder=\"embedding\",le=\"300\"} 11
kimmy_write_lock_held_seconds_bucket{holder=\"embedding\",le=\"+Inf\"} 12
kimmy_write_lock_held_seconds_sum{holder=\"embedding\"} 15
kimmy_write_lock_held_seconds_count{holder=\"embedding\"} 12
kimmy_write_lock_held_seconds_bucket{holder=\"durability\",le=\"0.001\"} 0
kimmy_write_lock_held_seconds_bucket{holder=\"durability\",le=\"0.01\"} 0
kimmy_write_lock_held_seconds_bucket{holder=\"durability\",le=\"0.1\"} 0
kimmy_write_lock_held_seconds_bucket{holder=\"durability\",le=\"1\"} 11
kimmy_write_lock_held_seconds_bucket{holder=\"durability\",le=\"5\"} 11
kimmy_write_lock_held_seconds_bucket{holder=\"durability\",le=\"30\"} 11
kimmy_write_lock_held_seconds_bucket{holder=\"durability\",le=\"300\"} 12
kimmy_write_lock_held_seconds_bucket{holder=\"durability\",le=\"+Inf\"} 13
kimmy_write_lock_held_seconds_sum{holder=\"durability\"} 16.5
kimmy_write_lock_held_seconds_count{holder=\"durability\"} 13
kimmy_write_lock_held_seconds_bucket{holder=\"rewind\",le=\"0.001\"} 0
kimmy_write_lock_held_seconds_bucket{holder=\"rewind\",le=\"0.01\"} 0
kimmy_write_lock_held_seconds_bucket{holder=\"rewind\",le=\"0.1\"} 0
kimmy_write_lock_held_seconds_bucket{holder=\"rewind\",le=\"1\"} 0
kimmy_write_lock_held_seconds_bucket{holder=\"rewind\",le=\"5\"} 12
kimmy_write_lock_held_seconds_bucket{holder=\"rewind\",le=\"30\"} 12
kimmy_write_lock_held_seconds_bucket{holder=\"rewind\",le=\"300\"} 13
kimmy_write_lock_held_seconds_bucket{holder=\"rewind\",le=\"+Inf\"} 14
kimmy_write_lock_held_seconds_sum{holder=\"rewind\"} 18
kimmy_write_lock_held_seconds_count{holder=\"rewind\"} 14
# HELP kimmy_write_lock_held_component_seconds_total Seconds holds of the storage writer spent, by holder and by what the holding thread was doing. read, write, sync: inside the storage file's page reads, page writes and fsyncs. cpu: on the CPU outside those - B-tree work over cached pages, encoding, index keys, bookkeeping. off_cpu: the rest - off the CPU outside any file call, which is scheduler delay or a wait on a lock inside the storage engine. The five add up to kimmy_write_lock_held_seconds_sum. off_cpu is a residual, so anything the other four fail to capture lands there too; read it beside kimmy_write_lock_held_write_estimated_seconds_total. cpu and off_cpu leave out holds counted in kimmy_write_lock_held_cpu_unmeasured_total.
# TYPE kimmy_write_lock_held_component_seconds_total counter
kimmy_write_lock_held_component_seconds_total{holder=\"write\",component=\"read\"} 0.101
kimmy_write_lock_held_component_seconds_total{holder=\"write\",component=\"write\"} 0.102
kimmy_write_lock_held_component_seconds_total{holder=\"write\",component=\"sync\"} 0.103
kimmy_write_lock_held_component_seconds_total{holder=\"write\",component=\"cpu\"} 0.104
kimmy_write_lock_held_component_seconds_total{holder=\"write\",component=\"off_cpu\"} 0.105
kimmy_write_lock_held_component_seconds_total{holder=\"bulk\",component=\"read\"} 0.201
kimmy_write_lock_held_component_seconds_total{holder=\"bulk\",component=\"write\"} 0.202
kimmy_write_lock_held_component_seconds_total{holder=\"bulk\",component=\"sync\"} 0.203
kimmy_write_lock_held_component_seconds_total{holder=\"bulk\",component=\"cpu\"} 0.204
kimmy_write_lock_held_component_seconds_total{holder=\"bulk\",component=\"off_cpu\"} 0.205
kimmy_write_lock_held_component_seconds_total{holder=\"ddl\",component=\"read\"} 0.301
kimmy_write_lock_held_component_seconds_total{holder=\"ddl\",component=\"write\"} 0.302
kimmy_write_lock_held_component_seconds_total{holder=\"ddl\",component=\"sync\"} 0.303
kimmy_write_lock_held_component_seconds_total{holder=\"ddl\",component=\"cpu\"} 0.304
kimmy_write_lock_held_component_seconds_total{holder=\"ddl\",component=\"off_cpu\"} 0.305
kimmy_write_lock_held_component_seconds_total{holder=\"index_build\",component=\"read\"} 0.401
kimmy_write_lock_held_component_seconds_total{holder=\"index_build\",component=\"write\"} 0.402
kimmy_write_lock_held_component_seconds_total{holder=\"index_build\",component=\"sync\"} 0.403
kimmy_write_lock_held_component_seconds_total{holder=\"index_build\",component=\"cpu\"} 0.404
kimmy_write_lock_held_component_seconds_total{holder=\"index_build\",component=\"off_cpu\"} 0.405
kimmy_write_lock_held_component_seconds_total{holder=\"drop\",component=\"read\"} 0.501
kimmy_write_lock_held_component_seconds_total{holder=\"drop\",component=\"write\"} 0.502
kimmy_write_lock_held_component_seconds_total{holder=\"drop\",component=\"sync\"} 0.503
kimmy_write_lock_held_component_seconds_total{holder=\"drop\",component=\"cpu\"} 0.504
kimmy_write_lock_held_component_seconds_total{holder=\"drop\",component=\"off_cpu\"} 0.505
kimmy_write_lock_held_component_seconds_total{holder=\"replication\",component=\"read\"} 0.601
kimmy_write_lock_held_component_seconds_total{holder=\"replication\",component=\"write\"} 0.602
kimmy_write_lock_held_component_seconds_total{holder=\"replication\",component=\"sync\"} 0.603
kimmy_write_lock_held_component_seconds_total{holder=\"replication\",component=\"cpu\"} 0.604
kimmy_write_lock_held_component_seconds_total{holder=\"replication\",component=\"off_cpu\"} 0.605
kimmy_write_lock_held_component_seconds_total{holder=\"repair\",component=\"read\"} 0.701
kimmy_write_lock_held_component_seconds_total{holder=\"repair\",component=\"write\"} 0.702
kimmy_write_lock_held_component_seconds_total{holder=\"repair\",component=\"sync\"} 0.703
kimmy_write_lock_held_component_seconds_total{holder=\"repair\",component=\"cpu\"} 0.704
kimmy_write_lock_held_component_seconds_total{holder=\"repair\",component=\"off_cpu\"} 0.705
kimmy_write_lock_held_component_seconds_total{holder=\"retention\",component=\"read\"} 0.801
kimmy_write_lock_held_component_seconds_total{holder=\"retention\",component=\"write\"} 0.802
kimmy_write_lock_held_component_seconds_total{holder=\"retention\",component=\"sync\"} 0.803
kimmy_write_lock_held_component_seconds_total{holder=\"retention\",component=\"cpu\"} 0.804
kimmy_write_lock_held_component_seconds_total{holder=\"retention\",component=\"off_cpu\"} 0.805
kimmy_write_lock_held_component_seconds_total{holder=\"expiry\",component=\"read\"} 0.901
kimmy_write_lock_held_component_seconds_total{holder=\"expiry\",component=\"write\"} 0.902
kimmy_write_lock_held_component_seconds_total{holder=\"expiry\",component=\"sync\"} 0.903
kimmy_write_lock_held_component_seconds_total{holder=\"expiry\",component=\"cpu\"} 0.904
kimmy_write_lock_held_component_seconds_total{holder=\"expiry\",component=\"off_cpu\"} 0.905
kimmy_write_lock_held_component_seconds_total{holder=\"embedding\",component=\"read\"} 1.001
kimmy_write_lock_held_component_seconds_total{holder=\"embedding\",component=\"write\"} 1.002
kimmy_write_lock_held_component_seconds_total{holder=\"embedding\",component=\"sync\"} 1.003
kimmy_write_lock_held_component_seconds_total{holder=\"embedding\",component=\"cpu\"} 1.004
kimmy_write_lock_held_component_seconds_total{holder=\"embedding\",component=\"off_cpu\"} 1.005
kimmy_write_lock_held_component_seconds_total{holder=\"durability\",component=\"read\"} 1.101
kimmy_write_lock_held_component_seconds_total{holder=\"durability\",component=\"write\"} 1.102
kimmy_write_lock_held_component_seconds_total{holder=\"durability\",component=\"sync\"} 1.103
kimmy_write_lock_held_component_seconds_total{holder=\"durability\",component=\"cpu\"} 1.104
kimmy_write_lock_held_component_seconds_total{holder=\"durability\",component=\"off_cpu\"} 1.105
kimmy_write_lock_held_component_seconds_total{holder=\"rewind\",component=\"read\"} 1.201
kimmy_write_lock_held_component_seconds_total{holder=\"rewind\",component=\"write\"} 1.202
kimmy_write_lock_held_component_seconds_total{holder=\"rewind\",component=\"sync\"} 1.203
kimmy_write_lock_held_component_seconds_total{holder=\"rewind\",component=\"cpu\"} 1.204
kimmy_write_lock_held_component_seconds_total{holder=\"rewind\",component=\"off_cpu\"} 1.205
# HELP kimmy_write_lock_held_phase_seconds_total Seconds holds of the storage writer spent, by holder and by where in the transaction. work: from taking the writer to asking to commit, the whole hold of one that aborted. counts: writing the collections' live document counts, once per transaction. commit: the storage engine's commit, its page writes and fsync, to letting go. The three add up to kimmy_write_lock_held_seconds_sum.
# TYPE kimmy_write_lock_held_phase_seconds_total counter
kimmy_write_lock_held_phase_seconds_total{holder=\"write\",phase=\"work\"} 0.111
kimmy_write_lock_held_phase_seconds_total{holder=\"write\",phase=\"counts\"} 0.112
kimmy_write_lock_held_phase_seconds_total{holder=\"write\",phase=\"commit\"} 0.113
kimmy_write_lock_held_phase_seconds_total{holder=\"bulk\",phase=\"work\"} 0.211
kimmy_write_lock_held_phase_seconds_total{holder=\"bulk\",phase=\"counts\"} 0.212
kimmy_write_lock_held_phase_seconds_total{holder=\"bulk\",phase=\"commit\"} 0.213
kimmy_write_lock_held_phase_seconds_total{holder=\"ddl\",phase=\"work\"} 0.311
kimmy_write_lock_held_phase_seconds_total{holder=\"ddl\",phase=\"counts\"} 0.312
kimmy_write_lock_held_phase_seconds_total{holder=\"ddl\",phase=\"commit\"} 0.313
kimmy_write_lock_held_phase_seconds_total{holder=\"index_build\",phase=\"work\"} 0.411
kimmy_write_lock_held_phase_seconds_total{holder=\"index_build\",phase=\"counts\"} 0.412
kimmy_write_lock_held_phase_seconds_total{holder=\"index_build\",phase=\"commit\"} 0.413
kimmy_write_lock_held_phase_seconds_total{holder=\"drop\",phase=\"work\"} 0.511
kimmy_write_lock_held_phase_seconds_total{holder=\"drop\",phase=\"counts\"} 0.512
kimmy_write_lock_held_phase_seconds_total{holder=\"drop\",phase=\"commit\"} 0.513
kimmy_write_lock_held_phase_seconds_total{holder=\"replication\",phase=\"work\"} 0.611
kimmy_write_lock_held_phase_seconds_total{holder=\"replication\",phase=\"counts\"} 0.612
kimmy_write_lock_held_phase_seconds_total{holder=\"replication\",phase=\"commit\"} 0.613
kimmy_write_lock_held_phase_seconds_total{holder=\"repair\",phase=\"work\"} 0.711
kimmy_write_lock_held_phase_seconds_total{holder=\"repair\",phase=\"counts\"} 0.712
kimmy_write_lock_held_phase_seconds_total{holder=\"repair\",phase=\"commit\"} 0.713
kimmy_write_lock_held_phase_seconds_total{holder=\"retention\",phase=\"work\"} 0.811
kimmy_write_lock_held_phase_seconds_total{holder=\"retention\",phase=\"counts\"} 0.812
kimmy_write_lock_held_phase_seconds_total{holder=\"retention\",phase=\"commit\"} 0.813
kimmy_write_lock_held_phase_seconds_total{holder=\"expiry\",phase=\"work\"} 0.911
kimmy_write_lock_held_phase_seconds_total{holder=\"expiry\",phase=\"counts\"} 0.912
kimmy_write_lock_held_phase_seconds_total{holder=\"expiry\",phase=\"commit\"} 0.913
kimmy_write_lock_held_phase_seconds_total{holder=\"embedding\",phase=\"work\"} 1.011
kimmy_write_lock_held_phase_seconds_total{holder=\"embedding\",phase=\"counts\"} 1.012
kimmy_write_lock_held_phase_seconds_total{holder=\"embedding\",phase=\"commit\"} 1.013
kimmy_write_lock_held_phase_seconds_total{holder=\"durability\",phase=\"work\"} 1.111
kimmy_write_lock_held_phase_seconds_total{holder=\"durability\",phase=\"counts\"} 1.112
kimmy_write_lock_held_phase_seconds_total{holder=\"durability\",phase=\"commit\"} 1.113
kimmy_write_lock_held_phase_seconds_total{holder=\"rewind\",phase=\"work\"} 1.211
kimmy_write_lock_held_phase_seconds_total{holder=\"rewind\",phase=\"counts\"} 1.212
kimmy_write_lock_held_phase_seconds_total{holder=\"rewind\",phase=\"commit\"} 1.213
# HELP kimmy_write_lock_held_io_bytes_total Bytes holds of the storage writer read from and wrote to the storage file, by holder. Beside the read and write components: more bytes is more pages, and the same bytes in more seconds is slower pages.
# TYPE kimmy_write_lock_held_io_bytes_total counter
kimmy_write_lock_held_io_bytes_total{holder=\"write\",io=\"read\"} 1001
kimmy_write_lock_held_io_bytes_total{holder=\"write\",io=\"write\"} 1002
kimmy_write_lock_held_io_bytes_total{holder=\"bulk\",io=\"read\"} 2001
kimmy_write_lock_held_io_bytes_total{holder=\"bulk\",io=\"write\"} 2002
kimmy_write_lock_held_io_bytes_total{holder=\"ddl\",io=\"read\"} 3001
kimmy_write_lock_held_io_bytes_total{holder=\"ddl\",io=\"write\"} 3002
kimmy_write_lock_held_io_bytes_total{holder=\"index_build\",io=\"read\"} 4001
kimmy_write_lock_held_io_bytes_total{holder=\"index_build\",io=\"write\"} 4002
kimmy_write_lock_held_io_bytes_total{holder=\"drop\",io=\"read\"} 5001
kimmy_write_lock_held_io_bytes_total{holder=\"drop\",io=\"write\"} 5002
kimmy_write_lock_held_io_bytes_total{holder=\"replication\",io=\"read\"} 6001
kimmy_write_lock_held_io_bytes_total{holder=\"replication\",io=\"write\"} 6002
kimmy_write_lock_held_io_bytes_total{holder=\"repair\",io=\"read\"} 7001
kimmy_write_lock_held_io_bytes_total{holder=\"repair\",io=\"write\"} 7002
kimmy_write_lock_held_io_bytes_total{holder=\"retention\",io=\"read\"} 8001
kimmy_write_lock_held_io_bytes_total{holder=\"retention\",io=\"write\"} 8002
kimmy_write_lock_held_io_bytes_total{holder=\"expiry\",io=\"read\"} 9001
kimmy_write_lock_held_io_bytes_total{holder=\"expiry\",io=\"write\"} 9002
kimmy_write_lock_held_io_bytes_total{holder=\"embedding\",io=\"read\"} 10001
kimmy_write_lock_held_io_bytes_total{holder=\"embedding\",io=\"write\"} 10002
kimmy_write_lock_held_io_bytes_total{holder=\"durability\",io=\"read\"} 11001
kimmy_write_lock_held_io_bytes_total{holder=\"durability\",io=\"write\"} 11002
kimmy_write_lock_held_io_bytes_total{holder=\"rewind\",io=\"read\"} 12001
kimmy_write_lock_held_io_bytes_total{holder=\"rewind\",io=\"write\"} 12002
# HELP kimmy_write_lock_held_write_estimated_seconds_total Seconds of page writes, inside holds of the storage writer, whose CPU time was estimated from a sample rather than read. The most by which cpu and off_cpu in kimmy_write_lock_held_component_seconds_total can be misattributed between each other, in either direction; 0 for a hold of 32 page writes or fewer, which is measured exactly.
# TYPE kimmy_write_lock_held_write_estimated_seconds_total counter
kimmy_write_lock_held_write_estimated_seconds_total{holder=\"write\"} 0.121
kimmy_write_lock_held_write_estimated_seconds_total{holder=\"bulk\"} 0.221
kimmy_write_lock_held_write_estimated_seconds_total{holder=\"ddl\"} 0.321
kimmy_write_lock_held_write_estimated_seconds_total{holder=\"index_build\"} 0.421
kimmy_write_lock_held_write_estimated_seconds_total{holder=\"drop\"} 0.521
kimmy_write_lock_held_write_estimated_seconds_total{holder=\"replication\"} 0.621
kimmy_write_lock_held_write_estimated_seconds_total{holder=\"repair\"} 0.721
kimmy_write_lock_held_write_estimated_seconds_total{holder=\"retention\"} 0.821
kimmy_write_lock_held_write_estimated_seconds_total{holder=\"expiry\"} 0.921
kimmy_write_lock_held_write_estimated_seconds_total{holder=\"embedding\"} 1.021
kimmy_write_lock_held_write_estimated_seconds_total{holder=\"durability\"} 1.121
kimmy_write_lock_held_write_estimated_seconds_total{holder=\"rewind\"} 1.221
# HELP kimmy_write_lock_held_overcounted_total Holds of the storage writer whose measured components came to more than the hold, past the clocks' tolerance: something was counted twice. Should read 0; it cannot see a component that was missed, which lands in off_cpu instead.
# TYPE kimmy_write_lock_held_overcounted_total counter
kimmy_write_lock_held_overcounted_total{holder=\"write\"} 61
kimmy_write_lock_held_overcounted_total{holder=\"bulk\"} 62
kimmy_write_lock_held_overcounted_total{holder=\"ddl\"} 63
kimmy_write_lock_held_overcounted_total{holder=\"index_build\"} 64
kimmy_write_lock_held_overcounted_total{holder=\"drop\"} 65
kimmy_write_lock_held_overcounted_total{holder=\"replication\"} 66
kimmy_write_lock_held_overcounted_total{holder=\"repair\"} 67
kimmy_write_lock_held_overcounted_total{holder=\"retention\"} 68
kimmy_write_lock_held_overcounted_total{holder=\"expiry\"} 69
kimmy_write_lock_held_overcounted_total{holder=\"embedding\"} 70
kimmy_write_lock_held_overcounted_total{holder=\"durability\"} 71
kimmy_write_lock_held_overcounted_total{holder=\"rewind\"} 72
# HELP kimmy_write_lock_held_cpu_unmeasured_total Holds of the storage writer, of any holder, whose thread CPU time could not be read, so they are not in the cpu and off_cpu components. Rises on every hold on a platform without a per-thread CPU clock; 0 on Linux and macOS.
# TYPE kimmy_write_lock_held_cpu_unmeasured_total counter
kimmy_write_lock_held_cpu_unmeasured_total 99
# HELP kimmy_storage_bytes Size of the database file on disk.
# TYPE kimmy_storage_bytes gauge
kimmy_storage_bytes 47
# HELP kimmy_vector_index_cache_bytes Estimated bytes of HNSW graphs held in memory across vector collections. Bounded by vector.index_cache.max_bytes; a graph larger than the whole budget is held anyway.
# TYPE kimmy_vector_index_cache_bytes gauge
kimmy_vector_index_cache_bytes 48
# HELP kimmy_process_resident_bytes Resident memory of this process as the kernel reports it (VmRSS in /proc/self/status) - the figure a container memory limit is enforced against. Holds storage.cache_bytes, the HNSW graphs, and whatever heap the allocator keeps for reuse after a burst, which is why it does not follow the two byte gauges above down. 0 where /proc is not available.
# TYPE kimmy_process_resident_bytes gauge
kimmy_process_resident_bytes 49
# HELP kimmy_process_resident_peak_bytes The most resident memory this process has had at any moment since it started (VmHWM) - what a container limit was reached by, readable after the current figure has come back down. 0 where /proc is not available.
# TYPE kimmy_process_resident_peak_bytes gauge
kimmy_process_resident_peak_bytes 50
# HELP kimmy_up Always 1; presence indicates the node is serving.
# TYPE kimmy_up gauge
kimmy_up 1
# HELP kimmy_uptime_seconds Seconds since this process started serving.
# TYPE kimmy_uptime_seconds gauge
kimmy_uptime_seconds 0
# HELP kimmy_task_retries_total Times a supervised background task retried its work in place after a transient failure, by task. A task whose count rises while nothing else changes is retrying for ever: alive, and doing no work. For the embedding worker, read it beside kimmy_task_progress_age_seconds, which rises through a retry that never succeeds.
# TYPE kimmy_task_retries_total counter
kimmy_task_retries_total{task=\"cert_reloader\"} 0
kimmy_task_retries_total{task=\"drop_purger\"} 0
kimmy_task_retries_total{task=\"embedding_worker\"} 0
kimmy_task_retries_total{task=\"jwks_refresher\"} 0
kimmy_task_retries_total{task=\"membership\"} 0
kimmy_task_retries_total{task=\"membership_announce\"} 0
kimmy_task_retries_total{task=\"membership_inbound\"} 0
kimmy_task_retries_total{task=\"membership_timer\"} 0
kimmy_task_retries_total{task=\"replication\"} 0
kimmy_task_retries_total{task=\"replication_server\"} 0
kimmy_task_retries_total{task=\"retention_collector\"} 0
kimmy_task_retries_total{task=\"session_invalidator\"} 0
kimmy_task_retries_total{task=\"stall_probe\"} 0
kimmy_task_retries_total{task=\"ttl_expiry\"} 0
kimmy_task_retries_total{task=\"vector_index_invalidator\"} 0
kimmy_task_retries_total{task=\"webhook_dispatcher\"} 0
# HELP kimmy_task_progress_age_seconds Seconds since a background writer last completed its work, computed when this page is read: a completed replication round, a stall-probe wake, a dispatcher pass, an embedding flush or idle turn. Since the process started before the first, never 0. Alert on this, and read the gauges a writer sets only while its age is fresh: a dead, stuck or retrying writer leaves them at their last value. A writer this node does not run has no row.
# TYPE kimmy_task_progress_age_seconds gauge
kimmy_task_progress_age_seconds{task=\"drop_purger\"} 99
kimmy_task_progress_age_seconds{task=\"embedding_worker\"} 99
kimmy_task_progress_age_seconds{task=\"replication\"} 81
kimmy_task_progress_age_seconds{task=\"stall_probe\"} 83
kimmy_task_progress_age_seconds{task=\"webhook_dispatcher\"} 85
# HELP kimmy_runtime_stall_seconds Worst delay a 250 ms timer on the async runtime saw since the last scrape. Above a few tens of milliseconds, something blocked a worker thread - the storage lock or an fsync - and peers may have marked this node down.
# TYPE kimmy_runtime_stall_seconds gauge
kimmy_runtime_stall_seconds 0
# HELP kimmy_requests_total HTTP requests handled.
# TYPE kimmy_requests_total counter
kimmy_requests_total 10
# HELP kimmy_responses_total HTTP responses by status class.
# TYPE kimmy_responses_total counter
kimmy_responses_total{class=\"2xx\"} 2
kimmy_responses_total{class=\"4xx\"} 3
kimmy_responses_total{class=\"5xx\"} 4
# HELP kimmy_authz_denied_total Operations refused by RBAC.
# TYPE kimmy_authz_denied_total counter
kimmy_authz_denied_total 1
# HELP kimmy_auth_failures_total Rejected credentials and tokens.
# TYPE kimmy_auth_failures_total counter
kimmy_auth_failures_total 1
# HELP kimmy_rate_limited_total Requests refused by a rate limit.
# TYPE kimmy_rate_limited_total counter
kimmy_rate_limited_total 1
# HELP kimmy_rate_limited_principal_total Authenticated requests refused by the per-principal rate limit. Also counted in kimmy_rate_limited_total; the difference is the login limiter.
# TYPE kimmy_rate_limited_principal_total counter
kimmy_rate_limited_principal_total 5
# HELP kimmy_backups_total Backups served.
# TYPE kimmy_backups_total counter
kimmy_backups_total 1
# HELP kimmy_ttl_expired_total Documents deleted by a TTL index.
# TYPE kimmy_ttl_expired_total counter
kimmy_ttl_expired_total 11
# HELP kimmy_ttl_skipped_total Expiry candidates refused because the document was refreshed before the delete.
# TYPE kimmy_ttl_skipped_total counter
kimmy_ttl_skipped_total 12
# HELP kimmy_ttl_skipped_filter_total Expiry candidates a TTL index held that its partial filter, evaluated as find evaluates it, did not select when the delete re-read the document, and were not deleted. A document moved out of the filter while the pass ran, or one the index should never have held. Should fall to near zero once partial-index membership agrees with the filter; until then each one is a document expiry used to delete.
# TYPE kimmy_ttl_skipped_filter_total counter
kimmy_ttl_skipped_filter_total 93
# HELP kimmy_index_unkeyed_total Documents stored under an index that could not key them - arrays at two of a compound index's paths, more than 1000 keys, or a Decimal128 - and are rechecked on every scan of that index instead. Each one is logged at warning naming the index and the document; the index listing reports how many stand under each index as `unkeyed`. This counts that reason only; a document held because a partial filter could not decide it is kimmy_index_undecidable_total.
# TYPE kimmy_index_unkeyed_total counter
kimmy_index_unkeyed_total 26
# HELP kimmy_index_undecidable_total Documents an index holds because its partial filter could not decide them: a Decimal128 at a filtered path, which the canonical order ranks equal to every number, so the filter's answer is not an answer. The index holds them and every scan re-checks them, which is what stops a partial index missing documents find returns. Expected, not a fault - the separate kimmy_index_unkeyed_total counts documents an index could not key, which is one.
# TYPE kimmy_index_undecidable_total counter
kimmy_index_undecidable_total 37
# HELP kimmy_webhook_deliveries_total Webhook delivery attempts by outcome.
# TYPE kimmy_webhook_deliveries_total counter
kimmy_webhook_deliveries_total{outcome=\"delivered\"} 2
kimmy_webhook_deliveries_total{outcome=\"failed\"} 1
# HELP kimmy_webhook_events_total Change events pushed to endpoints.
# TYPE kimmy_webhook_events_total counter
kimmy_webhook_events_total 27
# HELP kimmy_webhook_subscriptions Registered subscriptions by state, counted from this node's registry when this page is read.
# TYPE kimmy_webhook_subscriptions gauge
kimmy_webhook_subscriptions{state=\"active\"} 15
kimmy_webhook_subscriptions{state=\"invalidated\"} 16
kimmy_webhook_subscriptions{state=\"unreadable\"} 38
# HELP kimmy_webhook_backlog_seconds Age of the oldest undelivered event, across subscriptions this node owns, as of the dispatcher's last pass; kimmy_task_progress_age_seconds says how old that is.
# TYPE kimmy_webhook_backlog_seconds gauge
kimmy_webhook_backlog_seconds 17
# HELP kimmy_cluster_members Peers this node's SWIM membership currently considers alive, counted when this page is read. 0 with clustering off.
# TYPE kimmy_cluster_members gauge
kimmy_cluster_members 18
# HELP kimmy_replication_lag_seconds Seconds since the newest peer entry applied locally where a peer holds newer, max over peers in the last sync round, to the millisecond. Measured after each round against the vector the peer advertised when its pull opened, so it reads 0 once a round's pull reached that vector - including while entries the peer wrote since wait up to cluster.sync_interval_secs for the next round. Non-zero means a round ended with a pull still truncated: a backlog deeper than a tick could drain. 0 when clustering is off.
# TYPE kimmy_replication_lag_seconds gauge
kimmy_replication_lag_seconds 19.25
# HELP kimmy_sync_failures_total Anti-entropy rounds against a peer that failed, any cause: unreachable, refused, or a batch this node could not apply. Rising while kimmy_replication_lag_seconds sits at 0 is a wedged peer, not a healthy one - a failed round reports no lag.
# TYPE kimmy_sync_failures_total counter
kimmy_sync_failures_total 23
# HELP kimmy_sync_peers_backing_off Peers this node is currently backing off from after failed rounds. 0 when every peer answered its last round or clustering is off.
# TYPE kimmy_sync_peers_backing_off gauge
kimmy_sync_peers_backing_off 24
# HELP kimmy_sync_ddl_refused_total Replicated schema changes this node could not apply to its own data and skipped - an index its peers hold and it does not. Each one is logged at warning with the reason.
# TYPE kimmy_sync_ddl_refused_total counter
kimmy_sync_ddl_refused_total 25
# HELP kimmy_sync_ddl_declined_total Replicated index drops this node declined as older than the index standing under the name here, and had not already recorded. A drop applied when it was current leaves a tombstone, so a re-served window carrying it past the recreation it preceded is a replay and is not counted. What is counted is a drop this member has never seen - a member whose clock ran ahead when it created the index, which is now the only member still holding it; drop it directly on that member.
# TYPE kimmy_sync_ddl_declined_total counter
kimmy_sync_ddl_declined_total 36
# HELP kimmy_sync_ddl_applied_total Replicated schema changes this node applied, by how they arrived: pull, a window this node pulled from a peer; push, a window a peer pushed to confirm a change it made (ADR-140). Counted per entry applied, not per entry received: a refused, declined or skipped entry is not counted here, and neither is a replayed drop this node had already recorded or a change for a collection dropped here, which no outcome series counts. Nor is a change whose entry this node already held as sent, which is not applied again and whose append commits nothing (a kind's own writes are unchanged); it is counted in kimmy_sync_ddl_held_total. A burst of N index changes on one member should read about N on each other member, summed over both labels; compare the increase over a burst, not the total.
# TYPE kimmy_sync_ddl_applied_total counter
kimmy_sync_ddl_applied_total{via=\"pull\"} 89
kimmy_sync_ddl_applied_total{via=\"push\"} 97
# HELP kimmy_sync_ddl_held_total Replicated schema changes a window carried that this node already held, entry and all, by how they arrived: pull or push, as for kimmy_sync_ddl_applied_total. Not applied again: the append of the entry commits nothing, though a kind's own writes are unchanged (a drop of an index already gone still records its tombstone). Windows overlap by design - a pull that read this node's position before a push landed, a third member relaying what the origin pushed - and this is how much; for an index create it costs a read, not a commit.
# TYPE kimmy_sync_ddl_held_total counter
kimmy_sync_ddl_held_total{via=\"pull\"} 48
kimmy_sync_ddl_held_total{via=\"push\"} 58
# HELP kimmy_ddl_confirmations_total Schema-change confirmations on a member, one per member per index create or drop this node made (ADR-140), by how each ended (ADR-191). confirmed: the member took the change and did not refuse it. refused: it could not apply it, or declined a drop older than the index it holds. The rest are pending, and anti-entropy carries the change: timeout, the request's deadline passed first; failed, the push errored or timed out; unreached, the member is more than a batch behind or below the retention horizon; purging, it is still purging a drop of the name; stopped_unknown, its batch stopped earlier at a collection it lacks; other_member, a different node answered at the address; task_ended, the push task panicked or was aborted; backoff, the member did not answer the last push and is not pushed to for a while; unattributable, the member runs a version whose answer does not name changes; cancelled, the request went away before an answer, with its client.
# TYPE kimmy_ddl_confirmations_total counter
kimmy_ddl_confirmations_total{outcome=\"confirmed\"} 120
kimmy_ddl_confirmations_total{outcome=\"refused\"} 121
kimmy_ddl_confirmations_total{outcome=\"timeout\"} 122
kimmy_ddl_confirmations_total{outcome=\"failed\"} 123
kimmy_ddl_confirmations_total{outcome=\"unreached\"} 124
kimmy_ddl_confirmations_total{outcome=\"purging\"} 125
kimmy_ddl_confirmations_total{outcome=\"stopped_unknown\"} 126
kimmy_ddl_confirmations_total{outcome=\"other_member\"} 127
kimmy_ddl_confirmations_total{outcome=\"task_ended\"} 128
kimmy_ddl_confirmations_total{outcome=\"backoff\"} 129
kimmy_ddl_confirmations_total{outcome=\"unattributable\"} 130
kimmy_ddl_confirmations_total{outcome=\"cancelled\"} 131
# HELP kimmy_ddl_confirm_pushes_total Windows pushed to members to confirm schema changes (ADR-191). At most one is in flight per member, and each carries everything queued for it, so in a burst this rises far slower than kimmy_ddl_confirmations_total.
# TYPE kimmy_ddl_confirm_pushes_total counter
kimmy_ddl_confirm_pushes_total 137
# HELP kimmy_sync_ddl_relogged_total Schema changes a snapshot restore appended to this node's oplog so that it can serve them onward. Not an error: 0 on a member that never caught up by snapshot, and one per index definition a snapshot restored where it did not already hold the entry.
# TYPE kimmy_sync_ddl_relogged_total counter
kimmy_sync_ddl_relogged_total 91
# HELP kimmy_sync_divergent_collections Collections a periodic cross-member check currently finds disagreeing with a peer - held there and not here, or held by both with a different document count - confirmed on two checks running. 0 on a converged cluster. Moves for a divergence that leaves every other sync series reading healthy, because nothing about it fails a round.
# TYPE kimmy_sync_divergent_collections gauge
kimmy_sync_divergent_collections 5
# HELP kimmy_sync_divergence_checks_total Contacts with a peer in which the cross-member divergence check above ran, and rounds that did not run it - completed with the pull truncated by the batch cap, or failed. kimmy_sync_divergent_collections reading 0 is evidence that the peers agree only while ran is rising; ran flat while skipped rises means nothing looked, which a bare 0 cannot say. A round that failed is counted in kimmy_sync_failures_total and here as skipped, so ran plus skipped is every round attempted.
# TYPE kimmy_sync_divergence_checks_total counter
kimmy_sync_divergence_checks_total{outcome=\"ran\"} 32
kimmy_sync_divergence_checks_total{outcome=\"skipped\"} 34
# HELP kimmy_sync_divergence_count_probes_total Checked contacts in which the document-count half of the check compared the probed collection's count against the peer's, and checked contacts in which it was deferred because one member was behind the other and still catching up. compared flat while ran rises means no document count has been compared against any peer, whatever the gauge reads. A member that is behind but whose position has not moved for 3 consecutive checked contacts is compared regardless, so a member whose replication has stopped is not deferred for as long as it stays stopped.
# TYPE kimmy_sync_divergence_count_probes_total counter
kimmy_sync_divergence_count_probes_total{outcome=\"compared\"} 63
kimmy_sync_divergence_count_probes_total{outcome=\"deferred\"} 67
# HELP kimmy_sync_divergence_check_age_seconds Seconds since the last contact, with any peer, in which the cross-member divergence check ran, computed when this page is read. Before the first such contact, seconds since the process started, never 0; 0 on a node without clustering, so alert on it only where kimmy_task_progress_age_seconds has a replication row. Above a few multiples of cluster.sync_interval_secs, kimmy_sync_divergent_collections is holding a value nothing has re-examined, whether the rounds are failing or the loop itself is stuck - look at kimmy_sync_failures_total, kimmy_sync_peers_backing_off and kimmy_write_lock_wait_seconds.
# TYPE kimmy_sync_divergence_check_age_seconds gauge
kimmy_sync_divergence_check_age_seconds 71
# HELP kimmy_sync_entries_skipped_total Replicated entries a sync round left rather than took. unknown_collection: batches stopped at an entry for a collection this node has no record of - neither holding it nor a tombstone for it - because its creation was witnessed here without being applied, or has aged out of the peer's oplog; one per stopped batch, the window is re-served from the same place every round, and the round plans a snapshot from the peer to bring the collection. A collection dropped here is history instead and stops nothing. beyond_advertised: entries above the vector the peer advertised before serving the window, left for the next round, which asks for them from the right position; ordinary and rare on a busy cluster. A hole of either kind reads 0 on kimmy_replication_lag_seconds; this and kimmy_sync_divergent_collections are what move. purge_pending: batches stopped at a replicated creation, and snapshot pages that would create a collection, of a name whose earlier collection this node's drop purger is still removing (ADR-189); nothing is missing, so no snapshot is planned and a repair waiting on one is not abandoned, the window or page is asked for again from the same place until the purge is done, and nothing stamped after the creation is taken meanwhile, so kimmy_sync_divergence_check_age_seconds rises by design.
# TYPE kimmy_sync_entries_skipped_total counter
kimmy_sync_entries_skipped_total{reason=\"unknown_collection\"} 73
kimmy_sync_entries_skipped_total{reason=\"beyond_advertised\"} 75
kimmy_sync_entries_skipped_total{reason=\"purge_pending\"} 78
# HELP kimmy_sync_held_marks_released_total Entries this node held as state - written by a snapshot page, a carried delete or a scoped repair, above the vector it advertises - that arrived in a sync window served contiguously from its position and were released: the mark removed and both vectors raised over the entry. One per entry, counted when the batch commits. The release path itself: the beyond_advertised reason of kimmy_sync_entries_skipped_total rises on a peer while these entries are held and also for the ordinary race, and only this tells the two apart.
# TYPE kimmy_sync_held_marks_released_total counter
kimmy_sync_held_marks_released_total 53
# HELP kimmy_sync_held_marks Entries this node holds as state rather than history - written by a snapshot page, a carried delete or a scoped repair above the vector it advertises - and still waiting to arrive in a sync window contiguous from its position, which releases them. A gauge, read at scrape. Non-zero is not a fault: a member caught up by snapshot holds entries until they arrive as history. Non-zero and not falling over many rounds is a member whose peers are not serving those entries, and each pull names them to its peers as spans until they are.
# TYPE kimmy_sync_held_marks gauge
kimmy_sync_held_marks 54
# HELP kimmy_sync_repair_rounds_total Sync rounds spent repairing against a peer: re-serving its oplog from the divergent collection's creation, or pulling its snapshot, after the divergence check confirmed a collection against it or a batch stopped at a collection this node lacks. Rising is a repair under way; it stops when the repair reaches the peer's tail.
# TYPE kimmy_sync_repair_rounds_total counter
kimmy_sync_repair_rounds_total 77
# HELP kimmy_sync_pulled_entries_total Entries sync pulls carried from peers, whatever became of each - applied, superseded, a schema change or left for a later window. Divide the growth of kimmy_sync_pull_seconds_sum{phase=\"apply\"} by the growth of this for what applying one entry costs, whatever size the batches were.
# TYPE kimmy_sync_pulled_entries_total counter
kimmy_sync_pulled_entries_total 1105
# HELP kimmy_sync_entry_wait_ahead_total Sync pulls whose oldest entry this node lacked carried a timestamp later than this node's clock read when the batch arrived, so its wait could not be taken and is not in kimmy_sync_entry_wait_seconds. A peer's clock, or one its stamps witnessed, runs ahead of this node's; rising steadily is clock skew between members, and the wait histogram is under-reading by the pulls counted here.
# TYPE kimmy_sync_entry_wait_ahead_total counter
kimmy_sync_entry_wait_ahead_total 117
# HELP kimmy_sync_contacts_total Contacts with a peer in a sync tick, by how they ended. caught_up: the last pull did not come back truncated, so nothing more could be pulled at once. budget: a pull came back truncated and the next would not have fitted in what was left of cluster.sync_interval_secs, so a backlog was carried into the next tick. ceiling: truncated with time left, after the most pulls one contact may make. failed: a pull failed. budget rising is a backlog outliving a tick; kimmy_sync_pull_seconds says whether the tick's time went to the peer serving, to waiting for this node's writer, or to applying.
# TYPE kimmy_sync_contacts_total counter
kimmy_sync_contacts_total{ended=\"caught_up\"} 111
kimmy_sync_contacts_total{ended=\"budget\"} 112
kimmy_sync_contacts_total{ended=\"ceiling\"} 113
kimmy_sync_contacts_total{ended=\"failed\"} 114
# HELP kimmy_tls_reloads_total Certificate reload attempts by outcome. A failed reload leaves the certificate already in use serving.
# TYPE kimmy_tls_reloads_total counter
kimmy_tls_reloads_total{outcome=\"ok\"} 20
kimmy_tls_reloads_total{outcome=\"failed\"} 1
# HELP kimmy_jwks_refresh_total Attempts to refresh the OIDC provider's signing keys, by outcome. A failed refresh leaves the key set already in use verifying.
# TYPE kimmy_jwks_refresh_total counter
kimmy_jwks_refresh_total{outcome=\"ok\"} 22
kimmy_jwks_refresh_total{outcome=\"failed\"} 1
# HELP kimmy_embed_documents_total Documents whose vectors this node wrote.
# TYPE kimmy_embed_documents_total counter
kimmy_embed_documents_total 0
# HELP kimmy_embed_chunks_total Provider inputs embedded - the closest proxy for provider spend.
# TYPE kimmy_embed_chunks_total counter
kimmy_embed_chunks_total 0
# HELP kimmy_embed_deferred_total Foreign-written documents held for a later re-check.
# TYPE kimmy_embed_deferred_total counter
kimmy_embed_deferred_total 0
# HELP kimmy_embed_skipped_not_owned_total Documents dropped un-embedded because another node owns embedding - the duplicate provider calls this counts replacing is the 3x amplification measured in the August 2026 load test.
# TYPE kimmy_embed_skipped_not_owned_total counter
kimmy_embed_skipped_not_owned_total 0
# HELP kimmy_embed_skipped_no_shadow_total Documents and scans skipped because a collection is configured for vectors and its shadow collection is not on this node. Should read 0; rising means a configuration without the collection its vectors are stored in.
# TYPE kimmy_embed_skipped_no_shadow_total counter
kimmy_embed_skipped_no_shadow_total 0
# HELP kimmy_embed_failures_total Failed provider calls, including each retry. Climbing while embed_documents stays flat is a provider outage.
# TYPE kimmy_embed_failures_total counter
kimmy_embed_failures_total 0
# HELP kimmy_embed_provider_errors_total Provider calls that failed before a response, by what failed: connect (DNS, TCP, TLS), timeout, reset (the far side closed an open connection), other.
# TYPE kimmy_embed_provider_errors_total counter
kimmy_embed_provider_errors_total{kind=\"connect\"} 0
kimmy_embed_provider_errors_total{kind=\"timeout\"} 0
kimmy_embed_provider_errors_total{kind=\"reset\"} 0
kimmy_embed_provider_errors_total{kind=\"other\"} 0
# HELP kimmy_embed_provider_requests_total Embedding provider calls answered, documents and search queries alike - compare with the provider's own request count.
# TYPE kimmy_embed_provider_requests_total counter
kimmy_embed_provider_requests_total 0
# HELP kimmy_embed_provider_tokens_total Input tokens the embedding provider reported billing for - the number a metered provider's invoice is made of. Zero for providers that report none.
# TYPE kimmy_embed_provider_tokens_total counter
kimmy_embed_provider_tokens_total 0
# HELP kimmy_request_duration_seconds End-to-end request latency. Health and metrics routes are excluded, so scrapes do not crowd the buckets the real traffic lands in.
# TYPE kimmy_request_duration_seconds histogram
kimmy_request_duration_seconds_bucket{le=\"0.0001\"} 1
kimmy_request_duration_seconds_bucket{le=\"0.00025\"} 1
kimmy_request_duration_seconds_bucket{le=\"0.0005\"} 2
kimmy_request_duration_seconds_bucket{le=\"0.001\"} 2
kimmy_request_duration_seconds_bucket{le=\"0.0025\"} 2
kimmy_request_duration_seconds_bucket{le=\"0.005\"} 2
kimmy_request_duration_seconds_bucket{le=\"0.01\"} 2
kimmy_request_duration_seconds_bucket{le=\"0.025\"} 2
kimmy_request_duration_seconds_bucket{le=\"0.05\"} 3
kimmy_request_duration_seconds_bucket{le=\"0.1\"} 3
kimmy_request_duration_seconds_bucket{le=\"1\"} 3
kimmy_request_duration_seconds_bucket{le=\"10\"} 3
kimmy_request_duration_seconds_bucket{le=\"+Inf\"} 3
kimmy_request_duration_seconds_sum 0.03049
kimmy_request_duration_seconds_count 3
# HELP kimmy_backup_duration_seconds How long a backup took to produce: the walk of the whole store and its spill to disk, before any of it was sent. Follows the store's size and whether the file is in page cache.
# TYPE kimmy_backup_duration_seconds histogram
kimmy_backup_duration_seconds_bucket{le=\"1\"} 0
kimmy_backup_duration_seconds_bucket{le=\"5\"} 0
kimmy_backup_duration_seconds_bucket{le=\"15\"} 0
kimmy_backup_duration_seconds_bucket{le=\"30\"} 0
kimmy_backup_duration_seconds_bucket{le=\"60\"} 1
kimmy_backup_duration_seconds_bucket{le=\"120\"} 1
kimmy_backup_duration_seconds_bucket{le=\"300\"} 1
kimmy_backup_duration_seconds_bucket{le=\"600\"} 1
kimmy_backup_duration_seconds_bucket{le=\"1800\"} 1
kimmy_backup_duration_seconds_bucket{le=\"3600\"} 1
kimmy_backup_duration_seconds_bucket{le=\"+Inf\"} 1
kimmy_backup_duration_seconds_sum 42
kimmy_backup_duration_seconds_count 1
# HELP kimmy_sync_pull_seconds Where a sync pull's time went, by phase, one observation per pull of a peer's oplog. serve: from asking the peer for a window to holding it - the peer walking its oplog and the wire. wait: applying the window, waiting for this node's single writer behind whatever else was writing. apply: applying the window less that wait - every entry's work, the commits and their fsync. The three add up to the pull, and each is a different fix. Under storage.durability = coalesced, the wait for the shared flush's window and for the flush another committer leads is in apply, so there apply includes queueing behind other committers. A snapshot page is not a pull and is not observed here.
# TYPE kimmy_sync_pull_seconds histogram
kimmy_sync_pull_seconds_bucket{phase=\"serve\",le=\"0.001\"} 0
kimmy_sync_pull_seconds_bucket{phase=\"serve\",le=\"0.005\"} 1
kimmy_sync_pull_seconds_bucket{phase=\"serve\",le=\"0.01\"} 2
kimmy_sync_pull_seconds_bucket{phase=\"serve\",le=\"0.025\"} 2
kimmy_sync_pull_seconds_bucket{phase=\"serve\",le=\"0.05\"} 2
kimmy_sync_pull_seconds_bucket{phase=\"serve\",le=\"0.1\"} 2
kimmy_sync_pull_seconds_bucket{phase=\"serve\",le=\"0.25\"} 2
kimmy_sync_pull_seconds_bucket{phase=\"serve\",le=\"0.5\"} 2
kimmy_sync_pull_seconds_bucket{phase=\"serve\",le=\"1\"} 2
kimmy_sync_pull_seconds_bucket{phase=\"serve\",le=\"2.5\"} 2
kimmy_sync_pull_seconds_bucket{phase=\"serve\",le=\"5\"} 2
kimmy_sync_pull_seconds_bucket{phase=\"serve\",le=\"10\"} 2
kimmy_sync_pull_seconds_bucket{phase=\"serve\",le=\"30\"} 2
kimmy_sync_pull_seconds_bucket{phase=\"serve\",le=\"60\"} 2
kimmy_sync_pull_seconds_bucket{phase=\"serve\",le=\"300\"} 2
kimmy_sync_pull_seconds_bucket{phase=\"serve\",le=\"900\"} 2
kimmy_sync_pull_seconds_bucket{phase=\"serve\",le=\"+Inf\"} 2
kimmy_sync_pull_seconds_sum{phase=\"serve\"} 0.011
kimmy_sync_pull_seconds_count{phase=\"serve\"} 2
kimmy_sync_pull_seconds_bucket{phase=\"wait\",le=\"0.001\"} 0
kimmy_sync_pull_seconds_bucket{phase=\"wait\",le=\"0.005\"} 0
kimmy_sync_pull_seconds_bucket{phase=\"wait\",le=\"0.01\"} 0
kimmy_sync_pull_seconds_bucket{phase=\"wait\",le=\"0.025\"} 0
kimmy_sync_pull_seconds_bucket{phase=\"wait\",le=\"0.05\"} 1
kimmy_sync_pull_seconds_bucket{phase=\"wait\",le=\"0.1\"} 1
kimmy_sync_pull_seconds_bucket{phase=\"wait\",le=\"0.25\"} 1
kimmy_sync_pull_seconds_bucket{phase=\"wait\",le=\"0.5\"} 1
kimmy_sync_pull_seconds_bucket{phase=\"wait\",le=\"1\"} 1
kimmy_sync_pull_seconds_bucket{phase=\"wait\",le=\"2.5\"} 1
kimmy_sync_pull_seconds_bucket{phase=\"wait\",le=\"5\"} 1
kimmy_sync_pull_seconds_bucket{phase=\"wait\",le=\"10\"} 1
kimmy_sync_pull_seconds_bucket{phase=\"wait\",le=\"30\"} 1
kimmy_sync_pull_seconds_bucket{phase=\"wait\",le=\"60\"} 2
kimmy_sync_pull_seconds_bucket{phase=\"wait\",le=\"300\"} 2
kimmy_sync_pull_seconds_bucket{phase=\"wait\",le=\"900\"} 2
kimmy_sync_pull_seconds_bucket{phase=\"wait\",le=\"+Inf\"} 2
kimmy_sync_pull_seconds_sum{phase=\"wait\"} 45.04
kimmy_sync_pull_seconds_count{phase=\"wait\"} 2
kimmy_sync_pull_seconds_bucket{phase=\"apply\",le=\"0.001\"} 0
kimmy_sync_pull_seconds_bucket{phase=\"apply\",le=\"0.005\"} 0
kimmy_sync_pull_seconds_bucket{phase=\"apply\",le=\"0.01\"} 0
kimmy_sync_pull_seconds_bucket{phase=\"apply\",le=\"0.025\"} 0
kimmy_sync_pull_seconds_bucket{phase=\"apply\",le=\"0.05\"} 0
kimmy_sync_pull_seconds_bucket{phase=\"apply\",le=\"0.1\"} 0
kimmy_sync_pull_seconds_bucket{phase=\"apply\",le=\"0.25\"} 0
kimmy_sync_pull_seconds_bucket{phase=\"apply\",le=\"0.5\"} 0
kimmy_sync_pull_seconds_bucket{phase=\"apply\",le=\"1\"} 1
kimmy_sync_pull_seconds_bucket{phase=\"apply\",le=\"2.5\"} 1
kimmy_sync_pull_seconds_bucket{phase=\"apply\",le=\"5\"} 2
kimmy_sync_pull_seconds_bucket{phase=\"apply\",le=\"10\"} 2
kimmy_sync_pull_seconds_bucket{phase=\"apply\",le=\"30\"} 2
kimmy_sync_pull_seconds_bucket{phase=\"apply\",le=\"60\"} 2
kimmy_sync_pull_seconds_bucket{phase=\"apply\",le=\"300\"} 2
kimmy_sync_pull_seconds_bucket{phase=\"apply\",le=\"900\"} 2
kimmy_sync_pull_seconds_bucket{phase=\"apply\",le=\"+Inf\"} 2
kimmy_sync_pull_seconds_sum{phase=\"apply\"} 3.7
kimmy_sync_pull_seconds_count{phase=\"apply\"} 2
# HELP kimmy_sync_entry_wait_seconds How long the oldest entry a sync pull carried that this node lacked had waited when the pull arrived: from its origin's timestamp to this node's clock. The time an entry spends before any pull takes it - waiting for the next tick, or behind a backlog - which kimmy_sync_pull_seconds does not see. Crosses member clocks, so skew shifts it; a wait that would be negative is counted in kimmy_sync_entry_wait_ahead_total instead.
# TYPE kimmy_sync_entry_wait_seconds histogram
kimmy_sync_entry_wait_seconds_bucket{le=\"0.1\"} 0
kimmy_sync_entry_wait_seconds_bucket{le=\"0.25\"} 0
kimmy_sync_entry_wait_seconds_bucket{le=\"0.5\"} 0
kimmy_sync_entry_wait_seconds_bucket{le=\"1\"} 0
kimmy_sync_entry_wait_seconds_bucket{le=\"2\"} 1
kimmy_sync_entry_wait_seconds_bucket{le=\"5\"} 1
kimmy_sync_entry_wait_seconds_bucket{le=\"10\"} 1
kimmy_sync_entry_wait_seconds_bucket{le=\"30\"} 1
kimmy_sync_entry_wait_seconds_bucket{le=\"60\"} 2
kimmy_sync_entry_wait_seconds_bucket{le=\"300\"} 2
kimmy_sync_entry_wait_seconds_bucket{le=\"3600\"} 2
kimmy_sync_entry_wait_seconds_bucket{le=\"+Inf\"} 2
kimmy_sync_entry_wait_seconds_sum 46.5
kimmy_sync_entry_wait_seconds_count 2
# HELP kimmy_sync_served_windows_total Windows of this node's oplog walked for peers that pulled from it, including one too large for a frame that the peer is asked to take in fewer entries.
# TYPE kimmy_sync_served_windows_total counter
kimmy_sync_served_windows_total 1201
# HELP kimmy_sync_served_entries_total Entries the windows this node served to peers carried.
# TYPE kimmy_sync_served_entries_total counter
kimmy_sync_served_entries_total 1202
# HELP kimmy_sync_serve_passed_entries_total Entries the walks behind served windows examined and did not serve, mostly because the pulling peer already held them. A walk costs what it examines: this plus kimmy_sync_served_entries_total.
# TYPE kimmy_sync_serve_passed_entries_total counter
kimmy_sync_serve_passed_entries_total 1203
# HELP kimmy_sync_serve_walk_read_seconds_total Seconds the walks behind served windows spent reading pages of the storage file its cache did not hold: the serving load on this node's disk.
# TYPE kimmy_sync_serve_walk_read_seconds_total counter
kimmy_sync_serve_walk_read_seconds_total 3.3
# HELP kimmy_sync_serve_walk_read_bytes_total Bytes the walks behind served windows read from the storage file.
# TYPE kimmy_sync_serve_walk_read_bytes_total counter
kimmy_sync_serve_walk_read_bytes_total 1204
# HELP kimmy_sync_serve_walk_seconds How long this node took to walk its oplog for one window served to a peer, the wire not included.
# TYPE kimmy_sync_serve_walk_seconds histogram
kimmy_sync_serve_walk_seconds_bucket{le=\"0.0001\"} 3
kimmy_sync_serve_walk_seconds_bucket{le=\"0.001\"} 3
kimmy_sync_serve_walk_seconds_bucket{le=\"0.005\"} 1193
kimmy_sync_serve_walk_seconds_bucket{le=\"0.01\"} 1193
kimmy_sync_serve_walk_seconds_bucket{le=\"0.025\"} 1193
kimmy_sync_serve_walk_seconds_bucket{le=\"0.05\"} 1193
kimmy_sync_serve_walk_seconds_bucket{le=\"0.1\"} 1193
kimmy_sync_serve_walk_seconds_bucket{le=\"0.25\"} 1193
kimmy_sync_serve_walk_seconds_bucket{le=\"0.5\"} 1193
kimmy_sync_serve_walk_seconds_bucket{le=\"1\"} 1193
kimmy_sync_serve_walk_seconds_bucket{le=\"5\"} 1193
kimmy_sync_serve_walk_seconds_bucket{le=\"30\"} 1200
kimmy_sync_serve_walk_seconds_bucket{le=\"+Inf\"} 1201
kimmy_sync_serve_walk_seconds_sum 2.5
kimmy_sync_serve_walk_seconds_count 1201
";
    let (now, live) = golden_moment();
    assert_eq!(
        every_counter_distinct(now).render_with_at(&distinct_readings(), &live, now),
        expected
    );
}

#[test]
fn the_snapshot_reads_the_same_atomics_the_render_does() {
    let (now, live) = golden_moment();
    let mut m = every_counter_distinct(now);
    let readings = distinct_readings();
    let s = m.snapshot_with_at(&readings, &live, now);
    let out = m.render_with_at(&readings, &live, now);

    let expect = |line: &str| {
        assert!(out.contains(line), "the render disagrees with the snapshot: {line}\n{out}")
    };
    expect(&format!("kimmy_databases {}\n", s.databases));
    expect(&format!("kimmy_collections {}\n", s.collections));
    expect(&format!("kimmy_unique_violations {}\n", s.unique_violations));
    expect(&format!("kimmy_commits {}\n", s.commits));
    expect(&format!("kimmy_fsyncs {}\n", s.fsyncs));
    expect(&format!("kimmy_commits_grouped_total {}\n", s.commits_grouped));
    expect(&format!("kimmy_storage_bytes {}\n", s.storage_bytes));
    expect(&format!("kimmy_vector_index_cache_bytes {}\n", s.vector_index_cache_bytes));
    expect(&format!("kimmy_process_resident_bytes {}\n", s.process_resident_bytes));
    expect(&format!("kimmy_process_resident_peak_bytes {}\n", s.process_resident_peak_bytes));
    expect(&format!("kimmy_uptime_seconds {}\n", s.uptime_secs));
    expect(&format!("kimmy_requests_total {}\n", s.requests));
    expect(&format!("kimmy_responses_total{{class=\"2xx\"}} {}\n", s.responses_2xx));
    expect(&format!("kimmy_responses_total{{class=\"4xx\"}} {}\n", s.responses_4xx));
    expect(&format!("kimmy_responses_total{{class=\"5xx\"}} {}\n", s.responses_5xx));
    expect(&format!("kimmy_authz_denied_total {}\n", s.authz_denied));
    expect(&format!("kimmy_auth_failures_total {}\n", s.auth_failures));
    expect(&format!("kimmy_rate_limited_total {}\n", s.rate_limited));
    expect(&format!("kimmy_rate_limited_principal_total {}\n", s.rate_limited_principal));
    expect(&format!("kimmy_backups_total {}\n", s.backups));
    expect(&format!("kimmy_ttl_expired_total {}\n", s.ttl_expired));
    expect(&format!("kimmy_ttl_skipped_total {}\n", s.ttl_skipped));
    expect(&format!("kimmy_ttl_skipped_filter_total {}\n", s.ttl_skipped_filter));
    expect(&format!("kimmy_index_unkeyed_total {}\n", s.index_unkeyed));
    expect(&format!("kimmy_index_undecidable_total {}\n", s.index_undecidable));
    expect(&format!(
        "kimmy_webhook_deliveries_total{{outcome=\"delivered\"}} {}\n",
        s.webhook_delivered
    ));
    expect(&format!(
        "kimmy_webhook_deliveries_total{{outcome=\"failed\"}} {}\n",
        s.webhook_failed
    ));
    expect(&format!("kimmy_webhook_events_total {}\n", s.webhook_events));
    expect(&format!("kimmy_webhook_subscriptions{{state=\"active\"}} {}\n", s.webhook_active));
    expect(&format!(
        "kimmy_webhook_subscriptions{{state=\"invalidated\"}} {}\n",
        s.webhook_invalidated
    ));
    expect(&format!("kimmy_webhook_backlog_seconds {}\n", s.webhook_backlog_secs));
    expect(&format!("kimmy_cluster_members {}\n", s.cluster_members));
    expect(&format!("kimmy_replication_lag_seconds {}\n", s.replication_lag_ms as f64 / 1e3));
    expect(&format!("kimmy_sync_failures_total {}\n", s.sync_failures));
    expect(&format!("kimmy_sync_peers_backing_off {}\n", s.sync_peers_backing_off));
    expect(&format!("kimmy_sync_ddl_refused_total {}\n", s.sync_ddl_refused));
    expect(&format!("kimmy_sync_ddl_declined_total {}\n", s.sync_ddl_declined));
    expect(&format!(
        "kimmy_sync_ddl_applied_total{{via=\"pull\"}} {}\n",
        s.sync_ddl_applied_pull
    ));
    expect(&format!(
        "kimmy_sync_ddl_applied_total{{via=\"push\"}} {}\n",
        s.sync_ddl_applied_push
    ));
    expect(&format!("kimmy_sync_ddl_held_total{{via=\"pull\"}} {}\n", s.sync_ddl_held_pull));
    expect(&format!("kimmy_sync_ddl_held_total{{via=\"push\"}} {}\n", s.sync_ddl_held_push));
    for (slot, label) in CONFIRM_OUTCOMES.iter().enumerate() {
        expect(&format!(
            "kimmy_ddl_confirmations_total{{outcome=\"{}\"}} {}\n",
            label,
            s.ddl_confirmations[slot]
        ));
    }
    expect(&format!("kimmy_ddl_confirm_pushes_total {}\n", s.ddl_confirm_pushes));
    expect(&format!("kimmy_sync_ddl_relogged_total {}\n", s.sync_ddl_relogged));
    expect(&format!("kimmy_sync_divergent_collections {}\n", s.sync_divergent_collections));
    expect(&format!(
        "kimmy_sync_divergence_checks_total{{outcome=\"ran\"}} {}\n",
        s.sync_divergence_checks
    ));
    expect(&format!(
        "kimmy_sync_divergence_checks_total{{outcome=\"skipped\"}} {}\n",
        s.sync_divergence_skips
    ));
    expect(&format!(
        "kimmy_sync_divergence_count_probes_total{{outcome=\"compared\"}} {}\n",
        s.sync_divergence_count_compared
    ));
    expect(&format!(
        "kimmy_sync_divergence_count_probes_total{{outcome=\"deferred\"}} {}\n",
        s.sync_divergence_count_deferred
    ));
    expect(&format!(
        "kimmy_sync_divergence_check_age_seconds {}\n",
        s.sync_divergence_check_age_secs
    ));
    expect(&format!(
        "kimmy_sync_entries_skipped_total{{reason=\"unknown_collection\"}} {}\n",
        s.sync_entries_skipped_unknown_collection
    ));
    expect(&format!(
        "kimmy_sync_entries_skipped_total{{reason=\"beyond_advertised\"}} {}\n",
        s.sync_entries_skipped_beyond_advertised
    ));
    expect(&format!(
        "kimmy_sync_entries_skipped_total{{reason=\"purge_pending\"}} {}\n",
        s.sync_entries_skipped_purge_pending
    ));
    expect(&format!("kimmy_sync_held_marks_released_total {}\n", s.sync_held_marks_released));
    expect(&format!("kimmy_sync_held_marks {}\n", s.sync_held_marks));
    expect(&format!("kimmy_sync_repair_rounds_total {}\n", s.sync_repair_rounds));
    expect(&format!("kimmy_sync_pulled_entries_total {}\n", s.sync_pulls.entries));
    expect(&format!("kimmy_sync_entry_wait_ahead_total {}\n", s.sync_pulls.entry_wait_ahead));
    for (slot, label) in CONTACT_ENDS.iter().enumerate() {
        expect(&format!(
            "kimmy_sync_contacts_total{{ended=\"{}\"}} {}\n",
            label,
            s.sync_pulls.contacts[slot]
        ));
    }
    for (phase, h) in [
        ("serve", s.sync_pulls.serve),
        ("wait", s.sync_pulls.wait),
        ("apply", s.sync_pulls.apply),
    ] {
        expect(&format!(
            "kimmy_sync_pull_seconds_sum{{phase=\"{phase}\"}} {}\n",
            h.sum_us as f64 / 1e6
        ));
        expect(&format!("kimmy_sync_pull_seconds_count{{phase=\"{phase}\"}} {}\n", h.count));
    }
    expect(&format!(
        "kimmy_sync_entry_wait_seconds_sum {}\n",
        s.sync_pulls.entry_wait.sum_us as f64 / 1e6
    ));
    expect(&format!("kimmy_sync_entry_wait_seconds_count {}\n", s.sync_pulls.entry_wait.count));
    expect(&format!("kimmy_tls_reloads_total{{outcome=\"ok\"}} {}\n", s.tls_reloads_ok));
    expect(&format!(
        "kimmy_tls_reloads_total{{outcome=\"failed\"}} {}\n",
        s.tls_reloads_failed
    ));
    expect(&format!("kimmy_jwks_refresh_total{{outcome=\"ok\"}} {}\n", s.jwks_refresh_ok));
    expect(&format!(
        "kimmy_jwks_refresh_total{{outcome=\"failed\"}} {}\n",
        s.jwks_refresh_failed
    ));
    expect(&format!("kimmy_embed_documents_total {}\n", s.embed_documents_embedded));
    expect(&format!("kimmy_embed_chunks_total {}\n", s.embed_chunks_embedded));
    expect(&format!("kimmy_embed_deferred_total {}\n", s.embed_deferred));
    expect(&format!("kimmy_embed_skipped_not_owned_total {}\n", s.embed_skipped_not_owned));
    expect(&format!("kimmy_embed_skipped_no_shadow_total {}\n", s.embed_skipped_no_shadow));
    expect(&format!("kimmy_embed_failures_total {}\n", s.embed_failures));
    expect(&format!("kimmy_embed_provider_requests_total {}\n", s.embed_provider_requests));
    expect(&format!("kimmy_embed_provider_tokens_total {}\n", s.embed_provider_tokens));
    for (kind, n) in ["connect", "timeout", "reset", "other"].iter().zip(s.embed_transport) {
        expect(&format!("kimmy_embed_provider_errors_total{{kind=\"{kind}\"}} {n}\n"));
    }
    expect(&format!("kimmy_request_duration_seconds_count {}\n", s.latency_count));
    expect(&format!(
        "kimmy_backup_duration_seconds_sum {}\n",
        s.backup_duration_sum_us as f64 / 1e6
    ));

    for (row, label) in WRITER_HOLDERS.iter().enumerate() {
        let d = &s.write_lock_hold;
        for (c, component) in HOLD_COMPONENTS.iter().enumerate() {
            expect(&format!(
                "kimmy_write_lock_held_component_seconds_total{{holder=\"{label}\",component=\"{}\"}} {}\n",
                component,
                d.component_ns[row][c] as f64 / 1e9
            ));
        }
        for (p, phase) in HOLD_PHASES.iter().enumerate() {
            expect(&format!(
                "kimmy_write_lock_held_phase_seconds_total{{holder=\"{label}\",phase=\"{}\"}} {}\n",
                phase,
                d.phase_ns[row][p] as f64 / 1e9
            ));
        }
        expect(&format!(
            "kimmy_write_lock_held_io_bytes_total{{holder=\"{label}\",io=\"read\"}} {}\n",
            d.read_bytes[row]
        ));
        expect(&format!(
            "kimmy_write_lock_held_io_bytes_total{{holder=\"{label}\",io=\"write\"}} {}\n",
            d.write_bytes[row]
        ));
        expect(&format!(
            "kimmy_write_lock_held_write_estimated_seconds_total{{holder=\"{label}\"}} {}\n",
            d.write_estimated_ns[row] as f64 / 1e9
        ));
        expect(&format!(
            "kimmy_write_lock_held_overcounted_total{{holder=\"{label}\"}} {}\n",
            d.overcounted[row]
        ));
    }
    expect(&format!(
        "kimmy_write_lock_held_cpu_unmeasured_total {}\n",
        s.write_lock_hold.cpu_unmeasured
    ));
    expect(&format!("kimmy_sync_served_windows_total {}\n", s.sync_serve.windows));
    expect(&format!("kimmy_sync_served_entries_total {}\n", s.sync_serve.entries));
    expect(&format!("kimmy_sync_serve_passed_entries_total {}\n", s.sync_serve.passed));
    expect(&format!(
        "kimmy_sync_serve_walk_read_seconds_total {}\n",
        s.sync_serve.read_ns as f64 / 1e9
    ));
    expect(&format!("kimmy_sync_serve_walk_read_bytes_total {}\n", s.sync_serve.read_bytes));
    expect(&format!(
        "kimmy_sync_serve_walk_seconds_sum {}\n",
        s.sync_serve.walk_sum_us as f64 / 1e6
    ));
    expect(&format!("kimmy_sync_serve_walk_seconds_count {}\n", s.sync_serve.windows));

    // Not a rendered series of its own: the histogram prints it in seconds.
    assert_eq!(s.latency_sum_us, 90 + 400 + 30_000);
}

#[test]
fn statuses_land_in_the_right_class() {
    let mut m = Metrics::default();
    for status in [200, 201, 204] {
        m.record_request(status);
    }
    for status in [400, 403, 429] {
        m.record_request(status);
    }
    m.record_request(500);
    m.record_request(304);

    let out = m.render_at(0);
    assert!(out.contains("kimmy_requests_total 8"), "{out}");
    assert!(out.contains("class=\"2xx\"} 3"), "{out}");
    assert!(out.contains("class=\"4xx\"} 3"), "{out}");
    assert!(out.contains("class=\"5xx\"} 1"), "{out}");
}

#[test]
fn the_lag_gauge_reads_to_the_millisecond() {
    let mut m = Metrics::default();
    m.set_replication_lag_ms(6_384);
    let out = m.render_at(0);
    assert!(out.contains("kimmy_replication_lag_seconds 6.384\n"), "{out}");
    let s = m.snapshot_with_at(&StorageReadings::default(), &LiveReadings::at(0), 0);
    assert_eq!(s.replication_lag_ms, 6_384, "the bridge reads the same value");
}

#[test]
fn each_ticks_pulls_land_in_their_own_phase_label_and_bucket() {
    let mut m = Metrics::default();
    let tick = |serve, wait, apply, contacts| RoundReport {
        pulls: pulls_observed([serve, wait, apply], 10, 700, 0, contacts),
        ..round()
    };
    m.record_sync_round(&tick(2, 30, 400, [1, 2, 3, 4]));
    m.record_sync_round(&tick(2, 30, 400, [10, 20, 30, 40]));

    let out = m.render_at(0);
    for line in [
        "kimmy_sync_pull_seconds_bucket{phase=\"serve\",le=\"0.005\"} 2\n",
        "kimmy_sync_pull_seconds_bucket{phase=\"serve\",le=\"0.001\"} 0\n",
        "kimmy_sync_pull_seconds_bucket{phase=\"wait\",le=\"0.025\"} 0\n",
        "kimmy_sync_pull_seconds_bucket{phase=\"wait\",le=\"0.05\"} 2\n",
        "kimmy_sync_pull_seconds_bucket{phase=\"apply\",le=\"0.25\"} 0\n",
        "kimmy_sync_pull_seconds_bucket{phase=\"apply\",le=\"0.5\"} 2\n",
        "kimmy_sync_pull_seconds_sum{phase=\"serve\"} 0.004\n",
        "kimmy_sync_pull_seconds_sum{phase=\"wait\"} 0.06\n",
        "kimmy_sync_pull_seconds_sum{phase=\"apply\"} 0.8\n",
        "kimmy_sync_pull_seconds_count{phase=\"apply\"} 2\n",
        "kimmy_sync_pulled_entries_total 20\n",
        "kimmy_sync_entry_wait_seconds_bucket{le=\"0.5\"} 0\n",
        "kimmy_sync_entry_wait_seconds_bucket{le=\"1\"} 2\n",
        "kimmy_sync_entry_wait_seconds_sum 1.4\n",
        "kimmy_sync_contacts_total{ended=\"caught_up\"} 11\n",
        "kimmy_sync_contacts_total{ended=\"budget\"} 22\n",
        "kimmy_sync_contacts_total{ended=\"ceiling\"} 33\n",
        "kimmy_sync_contacts_total{ended=\"failed\"} 44\n",
    ] {
        assert!(out.contains(line), "missing {line:?} in:\n{out}");
    }
}

#[test]
fn the_render_is_parseable_prometheus_text() {
    let mut m = Metrics::default();
    m.record_request(403);
    let out = m.render_at(0);

    let mut samples = 0;
    for line in out.lines() {
        if line.starts_with('#') {
            assert!(
                line.starts_with("# HELP ") || line.starts_with("# TYPE "),
                "unexpected comment: {line}"
            );
            continue;
        }
        let value = line.rsplit(' ').next().expect("a value");
        // f64 rather than u64: the histogram's `_sum` is in seconds.
        assert!(value.parse::<f64>().is_ok(), "not a numeric sample: {line}");
        samples += 1;
    }
    assert_eq!(
        samples,
        107 + 6
            + 3 * 19
            + 14
            + 10 * WRITER_HOLDERS.len()
            + 12 * WRITER_HOLDERS.len()
            + 1
            + 5
            + 15
            + 1
            + TASKS.len()
            + PROGRESS_WRITERS.len()
            + 1
            + 1
            + 2
            + 2
            + CONFIRM_OUTCOMES.len()
            + 1,
        "expected one sample per series: {out}"
    );
}

#[test]
fn latency_buckets_are_cumulative_and_the_sum_is_in_seconds() {
    let mut m = Metrics::default();
    m.record_latency(200); // ≤ 250µs
    m.record_latency(200);
    m.record_latency(3_000); // ≤ 5ms
    let out = m.render_at(0);

    assert!(out.contains("kimmy_request_duration_seconds_bucket{le=\"0.00025\"} 2"), "{out}");
    assert!(out.contains("kimmy_request_duration_seconds_bucket{le=\"0.001\"} 2"), "{out}");
    assert!(out.contains("kimmy_request_duration_seconds_bucket{le=\"0.005\"} 3"), "{out}");
    assert!(out.contains("kimmy_request_duration_seconds_bucket{le=\"+Inf\"} 3"), "{out}");
    assert!(out.contains("kimmy_request_duration_seconds_count 3"), "{out}");
    assert!(out.contains("kimmy_request_duration_seconds_sum 0.0034"), "{out}");
}

#[test]
fn an_observation_above_every_bound_reaches_only_inf() {
    let mut m = Metrics::default();
    m.record_latency(60_000_000);
    let out = m.render_at(0);
    assert!(out.contains("kimmy_request_duration_seconds_bucket{le=\"10\"} 0"), "{out}");
    assert!(out.contains("kimmy_request_duration_seconds_bucket{le=\"+Inf\"} 1"), "{out}");
}

#[test]
fn the_specific_counters_track_their_statuses() {
    let mut m = Metrics::default();
    m.record_request(401);
    m.record_request(403);
    m.record_request(403);
    m.record_request(429);

    let out = m.render_at(0);
    assert!(out.contains("kimmy_auth_failures_total 1"), "{out}");
    assert!(out.contains("kimmy_authz_denied_total 2"), "{out}");
    assert!(out.contains("kimmy_rate_limited_total 1"), "{out}");
    assert!(out.contains("class=\"4xx\"} 4"), "all four are client errors too: {out}");
}

#[test]
fn counters_start_at_zero_rather_than_being_absent() {
    let out = Metrics::default().render_at(0);
    assert!(out.contains("kimmy_authz_denied_total 0"), "{out}");
    assert!(out.contains("kimmy_rate_limited_total 0"), "{out}");
    assert!(out.contains("kimmy_rate_limited_principal_total 0"), "{out}");
}

#[test]
fn a_principal_refusal_is_its_own_series_and_part_of_the_total() {
    let mut m = Metrics::default();
    m.record_principal_rate_limited();
    m.record_request(429);
    m.record_request(429);

    let out = m.render_at(0);
    assert!(out.contains("kimmy_rate_limited_total 2"), "{out}");
    assert!(out.contains("kimmy_rate_limited_principal_total 1"), "{out}");
}

#[test]
fn each_runtime_stall_reader_clears_only_its_own_high_water_mark() {
    let mut m = Metrics::default();
    m.record_runtime_stall(1_500, 0);

    // The bridge reads first. It gets the stall, and clears only its own.
    assert_eq!(m.take_runtime_stall_otlp_us(), 1_500);
    assert_eq!(m.take_runtime_stall_otlp_us(), 0, "the bridge's own mark did not clear");
    assert!(
        m.render_at(0).contains("kimmy_runtime_stall_seconds 0.0015"),
        "the bridge's read consumed the value /metrics had not yet reported"
    );
    assert!(
        m.render_at(0).contains("kimmy_runtime_stall_seconds 0\n"),
        "the /metrics mark did not clear on its own read"
    );

    // And the other way round: /metrics reads first.
    m.record_runtime_stall(2_500, 0);
    assert!(m.render_at(0).contains("kimmy_runtime_stall_seconds 0.0025"));
    assert_eq!(
        m.take_runtime_stall_otlp_us(),
        2_500,
        "a /metrics scrape consumed the stall the bridge had not yet reported"
    );

    // The mark is a maximum, not a last value, on each surface independently.
    m.record_runtime_stall(9_000, 0);
    m.record_runtime_stall(400, 0);
    assert_eq!(m.take_runtime_stall_otlp_us(), 9_000);
}

#[test]
fn a_pushed_window_counts_what_it_applied_as_pushed_and_the_rest_where_a_pull_would() {
    let mut m = Metrics::default();
    m.record_pushed(&SyncOutcome {
        ddl: 2,
        ddl_held: 3,
        ddl_refused: 1,
        ddl_declined: 1,
        unknown_collection: 1,
        deferred: 1,
        purge_pending: 1,
    });
    let s = m.snapshot_with_at(&StorageReadings::default(), &LiveReadings::at(0), 0);
    assert_eq!(s.sync_ddl_applied_push, 2);
    assert_eq!(s.sync_ddl_applied_pull, 0);
    assert_eq!((s.sync_ddl_held_push, s.sync_ddl_held_pull), (3, 0));
    assert_eq!((s.sync_ddl_refused, s.sync_ddl_declined), (1, 1));
    assert_eq!(
        (
            s.sync_entries_skipped_unknown_collection,
            s.sync_entries_skipped_beyond_advertised,
            s.sync_entries_skipped_purge_pending
        ),
        (1, 1, 1)
    );
}

#[test]
fn the_pushed_gauges_render_what_was_pushed() {
    let mut m = fresh();
    let now = START + 100 * SEC;
    m.set_replication_lag_ms(7_000);
    m.record_sync_round(&RoundReport {
        failed: 1,
        backing_off: 1,
        divergence_checks: 4,
        divergence_count_compared: 2,
        divergence_count_deferred: 1,
        divergence_last_check: Some(now - 30 * SEC),
        ..round()
    });
    m.record_sync_round(&RoundReport {
        failed: 2,
        ddl_applied: 7,
        ddl_refused: 3,
        divergent_collections: 6,
        divergence_skips: 5,
        divergence_count_deferred: 4,
        divergence_last_check: Some(now - 8 * SEC),
        ..round()
    });
    m.record_ddl_applied_push(11);
    m.record_tls_reload(true);
    m.record_tls_reload(false);
    m.record_tls_reload(false);
    m.record_jwks_refresh(true);
    m.record_jwks_refresh(true);
    m.record_jwks_refresh(false);

    let out = m.render_at(now);
    assert!(out.contains("kimmy_replication_lag_seconds 7"), "{out}");
    assert!(out.contains("kimmy_sync_failures_total 3"), "{out}");
    assert!(out.contains("kimmy_sync_peers_backing_off 0"), "{out}");
    assert!(out.contains("kimmy_sync_ddl_refused_total 3"), "{out}");
    assert!(out.contains("kimmy_sync_ddl_applied_total{via=\"pull\"} 7"), "{out}");
    assert!(out.contains("kimmy_sync_ddl_applied_total{via=\"push\"} 11"), "{out}");
    assert!(
        out.contains("kimmy_sync_divergent_collections 6"),
        "a level, not accumulated: {out}"
    );
    assert!(
        out.contains("kimmy_sync_divergence_checks_total{outcome=\"ran\"} 4"),
        "a counter, not a level: {out}"
    );
    assert!(
        out.contains("kimmy_sync_divergence_checks_total{outcome=\"skipped\"} 5"),
        "a counter, not a level: {out}"
    );
    assert!(
        out.contains("kimmy_sync_divergence_count_probes_total{outcome=\"compared\"} 2"),
        "a counter, not a level: {out}"
    );
    assert!(
        out.contains("kimmy_sync_divergence_count_probes_total{outcome=\"deferred\"} 5"),
        "a counter, not a level: {out}"
    );
    assert!(
        out.contains("kimmy_sync_divergence_check_age_seconds 8"),
        "a level, not accumulated: {out}"
    );
    assert!(out.contains("kimmy_tls_reloads_total{outcome=\"ok\"} 1"), "{out}");
    assert!(out.contains("kimmy_tls_reloads_total{outcome=\"failed\"} 2"), "{out}");
    assert!(out.contains("kimmy_jwks_refresh_total{outcome=\"ok\"} 2"), "{out}");
    assert!(out.contains("kimmy_jwks_refresh_total{outcome=\"failed\"} 1"), "{out}");
}

fn ages(m: &Metrics, now: u64) -> [Option<u64>; 5] {
    m.snapshot_with_at(&StorageReadings::default(), &LiveReadings::at(now), now)
        .task_progress_age_secs
}

#[test]
fn an_age_before_the_first_completion_is_the_time_since_start_never_zero() {
    let mut m = fresh();
    m.record_sync_round(&RoundReport { failed: 1, divergence_skips: 1, ..round() });
    let later = START + 90 * SEC;
    let out = m.render_at(later);
    assert!(out.contains("kimmy_sync_divergence_check_age_seconds 90\n"), "{out}");
    for writer in PROGRESS_WRITERS {
        let row = format!("kimmy_task_progress_age_seconds{{task=\"{writer}\"}} 90\n");
        assert!(out.contains(&row), "{writer}: {out}");
    }
    let snapshot =
        m.snapshot_with_at(&StorageReadings::default(), &LiveReadings::at(later), later);
    assert_eq!(snapshot.sync_divergence_check_age_secs, 90);
    assert_eq!(snapshot.task_progress_age_secs, [Some(90); PROGRESS_WRITERS.len()]);
}

#[test]
fn each_writer_resets_its_own_age_and_no_other() {
    let mut m = fresh();
    let later = START + 90 * SEC;
    m.record_sync_round(&RoundReport {
        last_completed_round: Some(later - 4 * SEC),
        ..round()
    });
    assert_eq!(
        ages(&m, later),
        [Some(90), Some(90), Some(4), Some(90), Some(90)],
        "only replication's, in {PROGRESS_WRITERS:?}"
    );
    m.record_runtime_stall(0, START + 5 * SEC);
    m.set_webhook_backlog(0, START + 6 * SEC);
    let got = ages(&m, later);
    let slot = |writer| got[progress_slot(writer)];
    assert_eq!(slot("drop_purger"), Some(90), "the drop purger made no progress: {got:?}");
    assert_eq!(slot("embedding_worker"), Some(90), "nor the embedding worker: {got:?}");
    assert_eq!(slot("replication"), Some(4), "{got:?}");
    assert!(slot("stall_probe").is_some_and(|a| a < 90), "the stall probe woke: {got:?}");
    assert!(
        slot("webhook_dispatcher").is_some_and(|a| a < 90),
        "the dispatcher completed a pass: {got:?}"
    );
}

#[test]
fn an_age_rises_between_reads_when_nothing_is_written() {
    let mut m = fresh();
    let at = START + 10 * SEC;
    m.record_sync_round(&RoundReport { last_completed_round: Some(at), ..round() });
    let age = |now| ages(&m, now)[progress_slot("replication")];
    assert_eq!(age(at + 5 * SEC), Some(5));
    assert_eq!(age(at + 500 * SEC), Some(500));
}

#[test]
fn a_writer_this_node_does_not_run_has_no_row() {
    let mut m = fresh();
    m.fix_progress_writers(&vec!["stall_probe", "session_invalidator", "webhook_dispatcher"]);
    // A second call changes nothing: the label set is the same on every scrape.
    m.fix_progress_writers(&PROGRESS_WRITERS.to_vec());
    let out = m.render_at(START);
    let rows: Vec<&str> =
        out.lines().filter(|l| l.starts_with("kimmy_task_progress_age_seconds{")).collect();
    assert_eq!(rows.len(), 2, "{rows:?}");
    assert!(rows[0].starts_with("kimmy_task_progress_age_seconds{task=\"stall_probe\"}"));
    assert!(rows[1].starts_with("kimmy_task_progress_age_seconds{task=\"webhook_dispatcher\"}"));
    let later = START + 90 * SEC;
    let snapshot =
        m.snapshot_with_at(&StorageReadings::default(), &LiveReadings::at(later), later);
    for writer in ["drop_purger", "embedding_worker", "replication"] {
        assert_eq!(snapshot.task_progress_age_secs[progress_slot(writer)], None, "{writer}");
    }
    assert_eq!(snapshot.sync_divergence_check_age_secs, 0);
}

#[test]
fn every_progress_writer_is_a_supervised_task() {
    for writer in PROGRESS_WRITERS {
        assert!(TASKS.contains(&writer), "{writer} is supervised under no name");
    }
}

#[test]
fn the_check_age_is_computed_when_it_is_read_so_a_stuck_loop_cannot_freeze_it() {
    let mut m = fresh();
    let checked = START;
    let tick = |at: Option<u64>| RoundReport {
        divergence_checks: usize::from(at == Some(checked)),
        divergence_last_check: at,
        ..round()
    };
    let age_in = |out: &str| -> u64 {
        out.lines()
            .find_map(|l| l.strip_prefix("kimmy_sync_divergence_check_age_seconds "))
            .and_then(|v| v.parse().ok())
            .unwrap_or_else(|| panic!("no age line: {out}"))
    };

    m.record_sync_round(&tick(Some(checked)));
    assert_eq!(age_in(&m.render_at(checked)), 0, "just checked");

    // The loop's next tick starts and never ends.
    let ninety = checked + 90 * SEC;
    assert_eq!(age_in(&m.render_at(ninety)), 90, "the render computes the age at the read");
    assert_eq!(
        m.snapshot_with_at(&StorageReadings::default(), &LiveReadings::at(ninety), ninety)
            .sync_divergence_check_age_secs,
        90,
        "the snapshot the OTLP bridge exports carries the same computed age"
    );
    let hour = checked + 3_600 * SEC;
    assert_eq!(age_in(&m.render_at(hour)), 3_600, "and keeps rising while nothing is pushed");

    // A tick that completed without a check carries the old instant.
    m.record_sync_round(&tick(Some(checked)));
    let later = hour + 5 * SEC;
    assert_eq!(age_in(&m.render_at(later)), 3_605, "a tick without a check resets nothing");

    let rechecked = later;
    m.record_sync_round(&tick(Some(rechecked)));
    assert_eq!(age_in(&m.render_at(rechecked)), 0, "a check resets the age");
    assert_eq!(age_in(&m.render_at(rechecked + 12 * SEC)), 12);
}

#[test]
fn resident_memory_is_read_from_the_two_status_lines_in_bytes() {
    let status = "Name:\tkimmyd\nVmPeak:\t 2233104 kB\nVmSize:\t 2101972 kB\n\
                  VmHWM:\t 2097152 kB\nVmRSS:\t  696320 kB\nRssAnon:\t  690000 kB\n\
                  Threads:\t9\n";
    let m = ProcessMemory::parse(status);
    assert_eq!(m.resident_bytes, 696_320 * 1024);
    assert_eq!(m.peak_resident_bytes, 2_097_152 * 1024);

    // The match is on the field name at the start of the line, not on a
    // substring.
    let m = ProcessMemory::parse("RssAnon:\t 1 kB\nVmRSSx:\t 2 kB\n");
    assert_eq!(m, ProcessMemory::default());
}

#[test]
fn a_missing_or_malformed_line_reads_as_zero_and_leaves_the_other_field() {
    let m = ProcessMemory::parse("VmRSS:\t 12 kB\n");
    assert_eq!(m, ProcessMemory { resident_bytes: 12 * 1024, peak_resident_bytes: 0 });
    let m = ProcessMemory::parse("VmRSS:\t lots kB\nVmHWM:\t 3 kB\n");
    assert_eq!(m, ProcessMemory { resident_bytes: 0, peak_resident_bytes: 3 * 1024 });
    assert_eq!(ProcessMemory::parse(""), ProcessMemory::default());
}

#[test]
fn an_observation_counts_in_every_bucket_it_fits() {
    let mut m = Metrics::default();
    m.record_latency(100);
    m.record_latency(101);
    assert_eq!(m.latency_buckets[..3], [1, 1, 0]);
    m.record_latency(u128::MAX);
    assert_eq!(m.latency_count, 3);
    assert_eq!(m.latency_sum_us, 201u64.wrapping_add(u64::MAX));
    m.record_backup(5_000_001);
    assert_eq!(m.backup_buckets[..3], [0, 0, 1]);
}

#[test]
fn the_worker_and_the_purger_report_their_own_progress() {
    let m = fresh();
    let later = START + 90 * SEC;
    let live = LiveReadings {
        worker: Some(WorkerCounters {
            documents_embedded: 1,
            chunks_embedded: 2,
            deferred: 3,
            skipped_not_owned: 4,
            skipped_no_shadow: 5,
            failures: 6,
            transport: [7, 8, 9, 10],
            last_progress: Some(later - 3 * SEC),
        }),
        purge_progress: Some(later - 2 * SEC),
        provider_requests: 11,
        provider_tokens: 12,
        ..LiveReadings::at(later)
    };
    let s = m.snapshot_with_at(&StorageReadings::default(), &live, later);
    assert_eq!(s.task_progress_age_secs[..2], [Some(2), Some(3)]);
    assert_eq!((s.embed_documents_embedded, s.embed_chunks_embedded), (1, 2));
    assert_eq!(s.embed_transport, [7, 8, 9, 10]);
    assert_eq!((s.embed_provider_requests, s.embed_provider_tokens), (11, 12));
    assert_eq!(s.uptime_secs, 90);
    assert_eq!(m.uptime_secs(later), 90);
}

#[test]
fn every_line_is_a_comment_or_a_sample_and_every_series_is_there() {
    let now = START + 60 * SEC;
    let pages = [fresh().render_at(now), every_counter_distinct(now).render_at(now)];
    for page in pages {
        assert!(page.ends_with('\n'));
        let mut types = Vec::new();
        for line in page.lines() {
            if let Some(rest) = line.strip_prefix("# TYPE ") {
                types.push(rest.split(' ').next().unwrap().to_string());
            } else if !line.starts_with("# HELP ") {
                assert!(!line.starts_with('#'), "{line}");
                let value = line.rsplit(' ').next().unwrap();
                let mut parts = value.splitn(2, '.');
                for part in [parts.next().unwrap(), parts.next().unwrap_or("0")] {
                    assert!(!part.is_empty() && part.chars().all(|c| c.is_ascii_digit()), "{line}");
                }
            }
        }
        assert_eq!(types.len(), 84);
        for name in types.iter().filter(|n| *n != "kimmy_task_progress_age_seconds") {
            assert!(
                page.lines().any(|l| {
                    [" ", "{", "_bucket{"].iter().any(|after| l.starts_with(&format!("{name}{after}")))
                }),
                "{name} has a sample"
            );
        }
    }
}
