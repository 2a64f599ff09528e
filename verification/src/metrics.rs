//! Process counters behind `/metrics`.
//!
//! Plain numbers rather than a metrics framework: the set of series is small
//! and fixed. The caller holds a [`Metrics`] behind a lock of its own, hands in
//! the instants it read from its clock and the levels it read from the engine,
//! and gets the page back as text.
//!
//! An instant is a number of nanoseconds of one monotonic clock. A counter
//! that reaches the end of its 64 bits starts again at 0.
//!
//! There are no per-collection series. `/metrics` is unauthenticated, and a
//! series per collection would put the schema on it.

pub mod count_laws;
pub mod help;
pub mod help_lines;
pub mod label_laws;
pub mod laws;
pub mod lines;
pub mod page;
pub mod row_values;
pub mod rows;
pub mod series;
pub mod values;

use vstd::prelude::*;
use vstd::string::*;

use crate::text::{after_name, first_word, line_after, parse_u64, unsigned_number, word};

verus! {

/// Upper bounds of `kimmy_backup_duration_seconds`, in microseconds.
///
/// A backup reads the whole store, so its duration follows the store's size:
/// the bounds run from a second to the hour.
pub const BACKUP_BUCKETS_US: [u64; 10] = [
    1_000_000,
    5_000_000,
    15_000_000,
    30_000_000,
    60_000_000,
    120_000_000,
    300_000_000,
    600_000_000,
    1_800_000_000,
    3_600_000_000,
];

/// Upper bounds of `kimmy_request_duration_seconds`, in microseconds.
pub const LATENCY_BUCKETS_US: [u64; 12] = [
    100,
    250,
    500,
    1_000,
    2_500,
    5_000,
    10_000,
    25_000,
    50_000,
    100_000,
    1_000_000,
    10_000_000,
];

/// Upper bounds of `kimmy_write_lock_wait_seconds`, in microseconds.
pub const WRITER_WAIT_BUCKETS_US: [u64; 8] = [
    1_000,
    5_000,
    25_000,
    100_000,
    500_000,
    1_000_000,
    5_000_000,
    30_000_000,
];

/// Upper bounds of `kimmy_write_lock_held_seconds`, in microseconds.
pub const WRITER_HOLD_BUCKETS_US: [u64; 7] = [
    1_000,
    10_000,
    100_000,
    1_000_000,
    5_000_000,
    30_000_000,
    300_000_000,
];

/// Upper bounds of `kimmy_sync_pull_seconds`, in microseconds.
pub const PULL_BUCKETS_US: [u64; 16] = [
    1_000,
    5_000,
    10_000,
    25_000,
    50_000,
    100_000,
    250_000,
    500_000,
    1_000_000,
    2_500_000,
    5_000_000,
    10_000_000,
    30_000_000,
    60_000_000,
    300_000_000,
    900_000_000,
];

/// Upper bounds of `kimmy_sync_entry_wait_seconds`, in microseconds.
pub const ENTRY_WAIT_BUCKETS_US: [u64; 11] = [
    100_000,
    250_000,
    500_000,
    1_000_000,
    2_000_000,
    5_000_000,
    10_000_000,
    30_000_000,
    60_000_000,
    300_000_000,
    3_600_000_000,
];

/// Upper bounds of `kimmy_sync_serve_walk_seconds`, in microseconds.
pub const SERVE_WALK_BUCKETS_US: [u64; 12] = [
    100,
    1_000,
    5_000,
    10_000,
    25_000,
    50_000,
    100_000,
    250_000,
    500_000,
    1_000_000,
    5_000_000,
    30_000_000,
];

/// What may hold the storage writer, by label; every array by holder is in
/// this order.
pub const WRITER_HOLDERS: [&'static str; 12] = [
    "write",
    "bulk",
    "ddl",
    "index_build",
    "drop",
    "replication",
    "repair",
    "retention",
    "expiry",
    "embedding",
    "durability",
    "rewind",
];

/// What a holding thread was doing.
pub const HOLD_COMPONENTS: [&'static str; 5] = ["read", "write", "sync", "cpu", "off_cpu"];

/// Where in the transaction a hold was.
pub const HOLD_PHASES: [&'static str; 3] = ["work", "counts", "commit"];

/// The tasks the server supervises, each with a retry counter.
pub const TASKS: [&'static str; 16] = [
    "cert_reloader",
    "drop_purger",
    "embedding_worker",
    "jwks_refresher",
    "membership",
    "membership_announce",
    "membership_inbound",
    "membership_timer",
    "replication",
    "replication_server",
    "retention_collector",
    "session_invalidator",
    "stall_probe",
    "ttl_expiry",
    "vector_index_invalidator",
    "webhook_dispatcher",
];

/// The background writers behind the page's measured gauges, each with a
/// progress age, by the name each is supervised under.
///
/// A gauge that can be read at scrape is read at scrape and needs no age. What
/// is left here are values only a background pass can know.
pub const PROGRESS_WRITERS: [&'static str; 5] = [
    "drop_purger",
    "embedding_worker",
    "replication",
    "stall_probe",
    "webhook_dispatcher",
];

/// How a schema-change confirmation on a member ended.
#[derive(Clone, Copy, Debug, PartialEq, Eq, Structural)]
pub enum ConfirmOutcome {
    Confirmed,
    Refused,
    Timeout,
    Failed,
    Unreached,
    Purging,
    StoppedUnknown,
    OtherMember,
    TaskEnded,
    Backoff,
    Unattributable,
    Cancelled,
}

/// The label of each [`ConfirmOutcome`], by its slot.
pub const CONFIRM_OUTCOMES: [&'static str; 12] = [
    "confirmed",
    "refused",
    "timeout",
    "failed",
    "unreached",
    "purging",
    "stopped_unknown",
    "other_member",
    "task_ended",
    "backoff",
    "unattributable",
    "cancelled",
];

impl ConfirmOutcome {
    /// The outcome's place in every array by outcome.
    pub open spec fn place(self) -> int {
        match self {
            ConfirmOutcome::Confirmed => 0,
            ConfirmOutcome::Refused => 1,
            ConfirmOutcome::Timeout => 2,
            ConfirmOutcome::Failed => 3,
            ConfirmOutcome::Unreached => 4,
            ConfirmOutcome::Purging => 5,
            ConfirmOutcome::StoppedUnknown => 6,
            ConfirmOutcome::OtherMember => 7,
            ConfirmOutcome::TaskEnded => 8,
            ConfirmOutcome::Backoff => 9,
            ConfirmOutcome::Unattributable => 10,
            ConfirmOutcome::Cancelled => 11,
        }
    }

    /// The outcome's place in every array by outcome.
    pub fn slot(self) -> (slot: usize)
        ensures
            slot == self.place(),
            slot < 12,
    {
        match self {
            ConfirmOutcome::Confirmed => 0,
            ConfirmOutcome::Refused => 1,
            ConfirmOutcome::Timeout => 2,
            ConfirmOutcome::Failed => 3,
            ConfirmOutcome::Unreached => 4,
            ConfirmOutcome::Purging => 5,
            ConfirmOutcome::StoppedUnknown => 6,
            ConfirmOutcome::OtherMember => 7,
            ConfirmOutcome::TaskEnded => 8,
            ConfirmOutcome::Backoff => 9,
            ConfirmOutcome::Unattributable => 10,
            ConfirmOutcome::Cancelled => 11,
        }
    }
}

/// Where `writer` sits in [`PROGRESS_WRITERS`], and so in every array ordered
/// by it. Read by name, so that a writer added to the list cannot move a
/// reader onto its neighbour's age.
pub fn progress_slot(writer: &str) -> (slot: usize)
    requires
        exists|i: int| 0 <= i < 5 && #[trigger] PROGRESS_WRITERS@[i]@ == writer@,
    ensures
        slot < 5,
        PROGRESS_WRITERS@[slot as int]@ == writer@,
{
    let mut i: usize = 0;
    while i < 4
        invariant
            i <= 4,
            forall|k: int| 0 <= k < i ==> #[trigger] PROGRESS_WRITERS@[k]@ != writer@,
            exists|i: int| 0 <= i < 5 && #[trigger] PROGRESS_WRITERS@[i]@ == writer@,
        ensures
            i <= 4,
            i < 4 ==> PROGRESS_WRITERS@[i as int]@ == writer@,
            forall|k: int| 0 <= k < i ==> #[trigger] PROGRESS_WRITERS@[k]@ != writer@,
        decreases 4 - i,
    {
        if *PROGRESS_WRITERS[i] == *writer {
            break;
        }
        i = i + 1;
    }
    i
}

/// Whether each writer's flag says that a task of its name was started.
pub open spec fn runs_started(fixed: Seq<bool>, started: Seq<&str>) -> bool {
    forall|i: int|
        0 <= i < 5 ==> #[trigger] fixed[i] == (exists|k: int|
            0 <= k < started.len() && #[trigger] started[k]@ == PROGRESS_WRITERS@[i]@)
}

/// No two progress writers share a name: a writer's slot is the only one that
/// holds it.
pub proof fn progress_writers_are_distinct(i: int, j: int)
    requires
        0 <= i < 5,
        0 <= j < 5,
        PROGRESS_WRITERS@[i]@ == PROGRESS_WRITERS@[j]@,
    ensures
        i == j,
{
    reveal_strlit("drop_purger");
    reveal_strlit("embedding_worker");
    reveal_strlit("replication");
    reveal_strlit("stall_probe");
    reveal_strlit("webhook_dispatcher");
    assert(PROGRESS_WRITERS@[i]@.len() == PROGRESS_WRITERS@[j]@.len());
    assert(PROGRESS_WRITERS@[i]@[0] == PROGRESS_WRITERS@[j]@[0]);
    assert(PROGRESS_WRITERS@[0]@[0] == 'd' && PROGRESS_WRITERS@[1]@[0] == 'e');
    assert(PROGRESS_WRITERS@[2]@[0] == 'r' && PROGRESS_WRITERS@[3]@[0] == 's');
    assert(PROGRESS_WRITERS@[4]@[0] == 'w');
}

/// Every progress writer is supervised under its name.
pub proof fn every_progress_writer_is_supervised(i: int)
    requires
        0 <= i < 5,
    ensures
        exists|t: int| 0 <= t < 16 && #[trigger] TASKS@[t]@ == PROGRESS_WRITERS@[i]@,
{
    assert(TASKS@[1]@ == PROGRESS_WRITERS@[0]@);
    assert(TASKS@[2]@ == PROGRESS_WRITERS@[1]@);
    assert(TASKS@[8]@ == PROGRESS_WRITERS@[2]@);
    assert(TASKS@[12]@ == PROGRESS_WRITERS@[3]@);
    assert(TASKS@[15]@ == PROGRESS_WRITERS@[4]@);
}

/// How long transactions waited for the storage writer.
#[derive(Clone, Copy, Debug, PartialEq, Eq)]
pub struct WriterWaitSnapshot {
    pub buckets: [u64; 8],
    pub count: u64,
    pub sum_us: u64,
}

/// How long the storage writer was held, by holder.
#[derive(Clone, Copy, Debug, PartialEq, Eq)]
pub struct WriterHoldSnapshot {
    pub buckets: [[u64; 7]; 12],
    pub count: [u64; 12],
    pub sum_us: [u64; 12],
}

/// What the holds of the storage writer were made of, by holder.
#[derive(Clone, Copy, Debug, PartialEq, Eq)]
pub struct HoldDecomposition {
    pub component_ns: [[u64; 5]; 12],
    pub phase_ns: [[u64; 3]; 12],
    pub read_bytes: [u64; 12],
    pub write_bytes: [u64; 12],
    pub write_estimated_ns: [u64; 12],
    pub overcounted: [u64; 12],
    pub cpu_unmeasured: u64,
}

/// What serving peers' windows has cost this node.
#[derive(Clone, Copy, Debug, PartialEq, Eq)]
pub struct ServeSnapshot {
    pub windows: u64,
    pub entries: u64,
    pub passed: u64,
    pub walk_buckets: [u64; 12],
    pub walk_sum_us: u64,
    pub read_ns: u64,
    pub read_bytes: u64,
}

/// What the storage engine, the vector cache and the kernel report at the
/// moment a reader asks.
///
/// Read by the caller, which has the engine, and handed in. Every field is a
/// level or a monotonic count, so a reading taken at read time is exact.
#[derive(Clone, Copy, Debug, PartialEq, Eq)]
pub struct StorageReadings {
    pub databases: u64,
    pub collections: u64,
    pub unique_violations: u64,
    pub commits: u64,
    pub fsyncs: u64,
    pub commits_grouped: u64,
    pub storage_bytes: u64,
    pub vector_index_cache_bytes: u64,
    pub process_resident_bytes: u64,
    pub process_resident_peak_bytes: u64,
    /// Documents filed under an index's unkeyed run since start.
    pub index_unkeyed: u64,
    pub index_undecidable: u64,
    /// Schema changes a snapshot restore appended to the oplog since start.
    pub sync_ddl_relogged: u64,
    /// How long writes waited for the single writer, the writes that gave up
    /// waiting inside their budget, and the longest any one transaction held
    /// it.
    pub writer_wait: WriterWaitSnapshot,
    pub writer_wait_timeouts: u64,
    pub writer_hold_max_us: u64,
    pub writer_hold: WriterHoldSnapshot,
    pub writer_hold_decomposition: HoldDecomposition,
    pub serve: ServeSnapshot,
    /// Entries held as state that a sync window released, since start.
    pub held_marks_released: u64,
    /// Entries held as state right now.
    pub held_marks: u64,
    /// Registered webhook subscriptions by state.
    pub webhook_active: u64,
    pub webhook_invalidated: u64,
    /// Registry records that do not decode as a document.
    pub webhook_unreadable: u64,
    /// Peers this node's membership currently holds; 0 with clustering off.
    pub cluster_members: u64,
}

impl Default for StorageReadings {
    /// Every reading at zero.
    fn default() -> (r: Self)
        ensures
            r.all_zero(),
    {
        StorageReadings {
            databases: 0,
            collections: 0,
            unique_violations: 0,
            commits: 0,
            fsyncs: 0,
            commits_grouped: 0,
            storage_bytes: 0,
            vector_index_cache_bytes: 0,
            process_resident_bytes: 0,
            process_resident_peak_bytes: 0,
            index_unkeyed: 0,
            index_undecidable: 0,
            sync_ddl_relogged: 0,
            writer_wait: WriterWaitSnapshot { buckets: [0; 8], count: 0, sum_us: 0 },
            writer_wait_timeouts: 0,
            writer_hold_max_us: 0,
            writer_hold: WriterHoldSnapshot {
                buckets: [[0; 7]; 12],
                count: [0; 12],
                sum_us: [0; 12],
            },
            writer_hold_decomposition: HoldDecomposition {
                component_ns: [[0; 5]; 12],
                phase_ns: [[0; 3]; 12],
                read_bytes: [0; 12],
                write_bytes: [0; 12],
                write_estimated_ns: [0; 12],
                overcounted: [0; 12],
                cpu_unmeasured: 0,
            },
            serve: ServeSnapshot {
                windows: 0,
                entries: 0,
                passed: 0,
                walk_buckets: [0; 12],
                walk_sum_us: 0,
                read_ns: 0,
                read_bytes: 0,
            },
            held_marks_released: 0,
            held_marks: 0,
            webhook_active: 0,
            webhook_invalidated: 0,
            webhook_unreadable: 0,
            cluster_members: 0,
        }
    }
}

/// Every number of an array is zero.
pub open spec fn zeros(s: Seq<u64>) -> bool {
    forall|i: int| 0 <= i < s.len() ==> #[trigger] s[i] == 0
}

impl StorageReadings {
    /// Every reading at zero.
    pub open spec fn all_zero(self) -> bool {
        &&& self.databases == 0
        &&& self.collections == 0
        &&& self.unique_violations == 0
        &&& self.commits == 0
        &&& self.fsyncs == 0
        &&& self.commits_grouped == 0
        &&& self.storage_bytes == 0
        &&& self.vector_index_cache_bytes == 0
        &&& self.process_resident_bytes == 0
        &&& self.process_resident_peak_bytes == 0
        &&& self.index_unkeyed == 0
        &&& self.index_undecidable == 0
        &&& self.sync_ddl_relogged == 0
        &&& self.writer_wait.count == 0
        &&& self.writer_wait.sum_us == 0
        &&& self.writer_wait_timeouts == 0
        &&& self.writer_hold_max_us == 0
        &&& self.writer_hold_decomposition.cpu_unmeasured == 0
        &&& self.serve.windows == 0
        &&& self.serve.entries == 0
        &&& self.serve.passed == 0
        &&& self.serve.walk_sum_us == 0
        &&& self.serve.read_ns == 0
        &&& self.serve.read_bytes == 0
        &&& self.held_marks_released == 0
        &&& self.held_marks == 0
        &&& self.webhook_active == 0
        &&& self.webhook_invalidated == 0
        &&& self.webhook_unreadable == 0
        &&& self.cluster_members == 0
        &&& zeros(self.writer_wait.buckets@)
        &&& zeros(self.writer_hold.count@)
        &&& zeros(self.writer_hold.sum_us@)
        &&& zeros(self.writer_hold_decomposition.read_bytes@)
        &&& zeros(self.writer_hold_decomposition.write_bytes@)
        &&& zeros(self.writer_hold_decomposition.write_estimated_ns@)
        &&& zeros(self.writer_hold_decomposition.overcounted@)
        &&& zeros(self.serve.walk_buckets@)
        &&& forall|i: int| 0 <= i < 12 ==> zeros((#[trigger] self.writer_hold.buckets@[i])@)
        &&& forall|i: int| 0 <= i < 12 ==> zeros((#[trigger] self.writer_hold_decomposition.component_ns@[i])@)
        &&& forall|i: int| 0 <= i < 12 ==> zeros((#[trigger] self.writer_hold_decomposition.phase_ns@[i])@)
    }
}

/// The embedding worker's counters, as read from the worker.
#[derive(Clone, Copy, Debug, PartialEq, Eq)]
pub struct WorkerCounters {
    pub documents_embedded: u64,
    pub chunks_embedded: u64,
    pub deferred: u64,
    pub skipped_not_owned: u64,
    pub skipped_no_shadow: u64,
    pub failures: u64,
    /// Transport failures among the failures: connect, timeout, reset, other.
    pub transport: [u64; 4],
    /// When the worker last made progress.
    pub last_progress: Option<u64>,
}

/// What the process itself reports at the moment a reader asks.
#[derive(Clone, Copy, Debug, PartialEq, Eq)]
pub struct LiveReadings {
    /// The process clock, which the uptime is measured against.
    pub clock: u64,
    /// The embedding worker's counters; none on a node that does not run it.
    pub worker: Option<WorkerCounters>,
    /// When the drop purger last made progress.
    pub purge_progress: Option<u64>,
    /// Each supervised task's retries, in [`TASKS`] order.
    pub task_retries: [u64; 16],
    /// Provider calls answered and input tokens billed, process-wide.
    pub provider_requests: u64,
    pub provider_tokens: u64,
}

impl LiveReadings {
    /// A reading at `clock` of a process in which nothing has happened yet.
    pub fn at(clock: u64) -> (r: Self)
        ensures
            r.clock == clock,
            r.worker is None,
            r.purge_progress is None,
            zeros(r.task_retries@),
            r.provider_requests == 0,
            r.provider_tokens == 0,
    {
        LiveReadings {
            clock,
            worker: None,
            purge_progress: None,
            task_retries: [0; 16],
            provider_requests: 0,
            provider_tokens: 0,
        }
    }
}

/// The process's resident memory, read from the kernel.
///
/// Zero where there is no `/proc`. Zero rather than absent, so the series is
/// always on the page.
#[derive(Clone, Copy, Debug, PartialEq, Eq, Structural)]
pub struct ProcessMemory {
    /// Bytes resident right now (`VmRSS`).
    pub resident_bytes: u64,
    /// The most bytes that were resident at any moment of this process's
    /// life (`VmHWM`).
    pub peak_resident_bytes: u64,
}

impl Default for ProcessMemory {
    fn default() -> (m: Self)
        ensures
            m == (ProcessMemory { resident_bytes: 0, peak_resident_bytes: 0 }),
    {
        ProcessMemory { resident_bytes: 0, peak_resident_bytes: 0 }
    }
}

/// The number of bytes a status field gives in kB: the first word after the
/// name, in the first line that starts with the name. Zero where there is no
/// such line or the word is no number, and never more than 64 bits hold.
pub open spec fn status_bytes(status: Seq<char>, name: Seq<char>) -> u64 {
    match line_after(status, name) {
        Some(rest) => match unsigned_number(first_word(rest)) {
            Some(kb) => if kb > u64::MAX {
                0
            } else if kb * 1024 > u64::MAX {
                u64::MAX
            } else {
                (kb * 1024) as u64
            },
            None => 0,
        },
        None => 0,
    }
}

fn status_field(status: &str, name: &str) -> (bytes: u64)
    ensures
        bytes == status_bytes(status@, name@),
{
    match after_name(status, name) {
        Some(rest) => match parse_u64(word(rest)) {
            Some(kb) => if kb > u64::MAX / 1024 {
                u64::MAX
            } else {
                kb * 1024
            },
            None => 0,
        },
        None => 0,
    }
}

impl ProcessMemory {
    /// Pull the two fields out of the text of `/proc/self/status`.
    ///
    /// The kernel prints both in kB whatever the value. A line that is missing
    /// or does not parse leaves its field at zero rather than failing the
    /// reading: the other field is still worth having.
    pub fn parse(status: &str) -> (m: Self)
        ensures
            m.resident_bytes == status_bytes(status@, "VmRSS:"@),
            m.peak_resident_bytes == status_bytes(status@, "VmHWM:"@),
    {
        ProcessMemory {
            resident_bytes: status_field(status, "VmRSS:"),
            peak_resident_bytes: status_field(status, "VmHWM:"),
        }
    }
}

/// Observations of a sync pull's phase, by [`PULL_BUCKETS_US`].
#[derive(Clone, Copy, Debug, PartialEq, Eq)]
pub struct PullHistogram {
    pub buckets: [u64; 16],
    pub count: u64,
    pub sum_us: u64,
}

/// Observations of an entry's wait, by [`ENTRY_WAIT_BUCKETS_US`].
#[derive(Clone, Copy, Debug, PartialEq, Eq)]
pub struct EntryWaitHistogram {
    pub buckets: [u64; 11],
    pub count: u64,
    pub sum_us: u64,
}

/// Where sync pulls spent their time, how long what they carried had waited,
/// and how contacts ended: caught up, budget, ceiling, failed.
#[derive(Clone, Copy, Debug, PartialEq, Eq)]
pub struct PullReport {
    pub serve: PullHistogram,
    pub wait: PullHistogram,
    pub apply: PullHistogram,
    pub entry_wait: EntryWaitHistogram,
    pub entries: u64,
    pub entry_wait_ahead: u64,
    pub contacts: [u64; 4],
}

/// `a` and `b` added, number by number.
pub open spec fn summed(a: Seq<u64>, b: Seq<u64>) -> Seq<u64> {
    Seq::new(a.len(), |i: int| a[i].wrapping_add(b[i]))
}

impl PullHistogram {
    fn none() -> (h: Self)
        ensures
            zeros(h.buckets@),
            h.count == 0,
            h.sum_us == 0,
    {
        PullHistogram { buckets: [0; 16], count: 0, sum_us: 0 }
    }

    /// `self` after the observations of `other` were added.
    pub open spec fn plus(self, other: Self, after: Self) -> bool {
        &&& after.buckets@ == summed(self.buckets@, other.buckets@)
        &&& after.count == self.count.wrapping_add(other.count)
        &&& after.sum_us == self.sum_us.wrapping_add(other.sum_us)
    }

    fn add_all(&mut self, other: &PullHistogram)
        ensures
            old(self).plus(*other, *final(self)),
    {
        let ghost before = self.buckets@;
        let mut i: usize = 0;
        while i < 16
            invariant
                i <= 16,
                before == old(self).buckets@,
                forall|k: int|
                    0 <= k < i ==> #[trigger] self.buckets@[k] == before[k].wrapping_add(
                        other.buckets@[k],
                    ),
                forall|k: int| i <= k < 16 ==> #[trigger] self.buckets@[k] == before[k],
                self.count == old(self).count,
                self.sum_us == old(self).sum_us,
            decreases 16 - i,
        {
            self.buckets[i] = self.buckets[i].wrapping_add(other.buckets[i]);
            i = i + 1;
        }
        self.count = self.count.wrapping_add(other.count);
        self.sum_us = self.sum_us.wrapping_add(other.sum_us);
        assert(self.buckets@ =~= summed(before, other.buckets@));
    }
}

impl EntryWaitHistogram {
    /// `self` after the observations of `other` were added.
    pub open spec fn plus(self, other: Self, after: Self) -> bool {
        &&& after.buckets@ == summed(self.buckets@, other.buckets@)
        &&& after.count == self.count.wrapping_add(other.count)
        &&& after.sum_us == self.sum_us.wrapping_add(other.sum_us)
    }

    fn add_all(&mut self, other: &EntryWaitHistogram)
        ensures
            old(self).plus(*other, *final(self)),
    {
        let ghost before = self.buckets@;
        let mut i: usize = 0;
        while i < 11
            invariant
                i <= 11,
                before == old(self).buckets@,
                forall|k: int|
                    0 <= k < i ==> #[trigger] self.buckets@[k] == before[k].wrapping_add(
                        other.buckets@[k],
                    ),
                forall|k: int| i <= k < 11 ==> #[trigger] self.buckets@[k] == before[k],
                self.count == old(self).count,
                self.sum_us == old(self).sum_us,
            decreases 11 - i,
        {
            self.buckets[i] = self.buckets[i].wrapping_add(other.buckets[i]);
            i = i + 1;
        }
        self.count = self.count.wrapping_add(other.count);
        self.sum_us = self.sum_us.wrapping_add(other.sum_us);
        assert(self.buckets@ =~= summed(before, other.buckets@));
    }
}

impl Default for PullReport {
    /// A report of no pull.
    fn default() -> (r: Self)
        ensures
            r.all_zero(),
    {
        PullReport {
            serve: PullHistogram::none(),
            wait: PullHistogram::none(),
            apply: PullHistogram::none(),
            entry_wait: EntryWaitHistogram { buckets: [0; 11], count: 0, sum_us: 0 },
            entries: 0,
            entry_wait_ahead: 0,
            contacts: [0; 4],
        }
    }
}

impl PullReport {
    /// A report of no pull.
    pub open spec fn all_zero(self) -> bool {
        &&& zeros(self.serve.buckets@) && self.serve.count == 0 && self.serve.sum_us == 0
        &&& zeros(self.wait.buckets@) && self.wait.count == 0 && self.wait.sum_us == 0
        &&& zeros(self.apply.buckets@) && self.apply.count == 0 && self.apply.sum_us == 0
        &&& zeros(self.entry_wait.buckets@) && self.entry_wait.count == 0 && self.entry_wait.sum_us
            == 0
        &&& self.entries == 0 && self.entry_wait_ahead == 0 && zeros(self.contacts@)
    }

    /// `self` after the pulls of `other` were added.
    pub open spec fn plus(self, other: Self, after: Self) -> bool {
        &&& self.serve.plus(other.serve, after.serve)
        &&& self.wait.plus(other.wait, after.wait)
        &&& self.apply.plus(other.apply, after.apply)
        &&& self.entry_wait.plus(other.entry_wait, after.entry_wait)
        &&& after.entries == self.entries.wrapping_add(other.entries)
        &&& after.entry_wait_ahead == self.entry_wait_ahead.wrapping_add(other.entry_wait_ahead)
        &&& after.contacts@ == summed(self.contacts@, other.contacts@)
    }

    /// Add another report's pulls to this one's.
    pub fn add_all(&mut self, other: &PullReport)
        ensures
            old(self).plus(*other, *final(self)),
    {
        self.serve.add_all(&other.serve);
        self.wait.add_all(&other.wait);
        self.apply.add_all(&other.apply);
        self.entry_wait.add_all(&other.entry_wait);
        self.entries = self.entries.wrapping_add(other.entries);
        self.entry_wait_ahead = self.entry_wait_ahead.wrapping_add(other.entry_wait_ahead);
        let ghost before = self.contacts@;
        self.contacts[0] = self.contacts[0].wrapping_add(other.contacts[0]);
        self.contacts[1] = self.contacts[1].wrapping_add(other.contacts[1]);
        self.contacts[2] = self.contacts[2].wrapping_add(other.contacts[2]);
        self.contacts[3] = self.contacts[3].wrapping_add(other.contacts[3]);
        assert(self.contacts@ =~= summed(before, other.contacts@));
    }
}

/// One sync tick of the replication loop.
#[derive(Clone, Copy, Debug, PartialEq, Eq)]
pub struct RoundReport {
    /// Rounds that failed.
    pub failed: usize,
    /// Peers now being backed off.
    pub backing_off: usize,
    pub ddl_applied: usize,
    pub ddl_held: usize,
    pub ddl_refused: usize,
    pub ddl_declined: usize,
    /// Collections the cross-member divergence check has confirmed.
    pub divergent_collections: usize,
    pub divergence_checks: usize,
    pub divergence_skips: usize,
    pub divergence_count_compared: usize,
    pub divergence_count_deferred: usize,
    /// When the loop last ran the check against any peer.
    pub divergence_last_check: Option<u64>,
    /// When a round last completed.
    pub last_completed_round: Option<u64>,
    pub entries_skipped_unknown_collection: usize,
    pub entries_skipped_beyond_advertised: usize,
    pub entries_skipped_purge_pending: usize,
    pub repair_rounds: usize,
    pub pulls: PullReport,
}

/// What a window that a peer pushed to this node did.
#[derive(Clone, Copy, Debug, PartialEq, Eq)]
pub struct SyncOutcome {
    /// Schema changes applied.
    pub ddl: usize,
    pub ddl_held: usize,
    pub ddl_refused: usize,
    pub ddl_declined: usize,
    pub unknown_collection: usize,
    pub deferred: usize,
    pub purge_pending: usize,
}

/// Counters for one running server.
#[derive(Clone, Copy, Debug)]
pub struct Metrics {
    pub started: u64,
    /// Not cumulative: the page accumulates.
    pub latency_buckets: [u64; 12],
    pub latency_sum_us: u64,
    pub latency_count: u64,
    /// Not cumulative, like the latency buckets; the count is `backups`.
    pub backup_buckets: [u64; 10],
    pub backup_sum_us: u64,
    pub replication_lag_ms: u64,
    /// Every sync tick's report, summed.
    pub sync_pulls: PullReport,
    pub sync_failures: u64,
    pub sync_peers_backing_off: u64,
    pub sync_ddl_refused: u64,
    pub sync_ddl_declined: u64,
    pub sync_ddl_applied_pull: u64,
    pub sync_ddl_applied_push: u64,
    pub sync_ddl_held_pull: u64,
    pub sync_ddl_held_push: u64,
    pub ddl_confirmations: [u64; 12],
    pub ddl_confirm_pushes: u64,
    pub sync_divergent_collections: u64,
    pub sync_divergence_checks: u64,
    pub sync_divergence_skips: u64,
    pub sync_divergence_count_compared: u64,
    pub sync_divergence_count_deferred: u64,
    /// When the loop last ran the divergence check, as it reported at its last
    /// tick. The age is computed from it at the moment it is read, so it keeps
    /// rising on a member whose loop has stopped.
    pub sync_divergence_last_check: Option<u64>,
    pub sync_entries_skipped_unknown_collection: u64,
    pub sync_entries_skipped_beyond_advertised: u64,
    pub sync_entries_skipped_purge_pending: u64,
    pub sync_repair_rounds: u64,
    /// The worst scheduling delay since the page was last read. One mark per
    /// reader, because reading one clears it.
    pub runtime_stall_us: u64,
    /// The telemetry bridge's own copy of the mark, cleared by its own read.
    pub runtime_stall_otlp_us: u64,
    pub requests: u64,
    pub responses_2xx: u64,
    pub responses_4xx: u64,
    pub responses_5xx: u64,
    pub authz_denied: u64,
    pub auth_failures: u64,
    pub rate_limited: u64,
    pub rate_limited_principal: u64,
    pub backups: u64,
    pub webhook_delivered: u64,
    pub webhook_failed: u64,
    pub webhook_events: u64,
    pub webhook_backlog_secs: u64,
    pub stall_probe_progress: Option<u64>,
    pub dispatcher_progress: Option<u64>,
    pub replication_progress: Option<u64>,
    /// Which of [`PROGRESS_WRITERS`] this node runs, fixed once startup has
    /// spawned them; every one of them until then.
    pub progress_writers: Option<[bool; 5]>,
    pub tls_reloads_ok: u64,
    pub tls_reloads_failed: u64,
    pub jwks_refresh_ok: u64,
    pub jwks_refresh_failed: u64,
    pub ttl_expired: u64,
    pub ttl_skipped: u64,
    pub ttl_skipped_filter: u64,
}

/// Every counter as a plain value, for a reader that is not the page.
#[derive(Clone, Copy, Debug, PartialEq, Eq)]
pub struct MetricsSnapshot {
    pub databases: u64,
    pub collections: u64,
    pub unique_violations: u64,
    pub commits: u64,
    pub fsyncs: u64,
    pub commits_grouped: u64,
    pub storage_bytes: u64,
    pub vector_index_cache_bytes: u64,
    pub process_resident_bytes: u64,
    pub process_resident_peak_bytes: u64,
    pub uptime_secs: u64,
    pub requests: u64,
    pub responses_2xx: u64,
    pub responses_4xx: u64,
    pub responses_5xx: u64,
    pub authz_denied: u64,
    pub auth_failures: u64,
    pub rate_limited: u64,
    pub rate_limited_principal: u64,
    pub backups: u64,
    pub ttl_expired: u64,
    pub ttl_skipped: u64,
    pub ttl_skipped_filter: u64,
    pub webhook_delivered: u64,
    pub webhook_failed: u64,
    pub webhook_events: u64,
    pub webhook_backlog_secs: u64,
    pub replication_lag_ms: u64,
    pub sync_failures: u64,
    pub sync_peers_backing_off: u64,
    pub sync_ddl_refused: u64,
    pub sync_ddl_declined: u64,
    pub sync_ddl_applied_pull: u64,
    pub sync_ddl_applied_push: u64,
    pub sync_ddl_held_pull: u64,
    pub sync_ddl_held_push: u64,
    pub ddl_confirmations: [u64; 12],
    pub ddl_confirm_pushes: u64,
    pub sync_divergent_collections: u64,
    pub sync_divergence_checks: u64,
    pub sync_divergence_skips: u64,
    pub sync_divergence_count_compared: u64,
    pub sync_divergence_count_deferred: u64,
    pub sync_entries_skipped_unknown_collection: u64,
    pub sync_entries_skipped_beyond_advertised: u64,
    pub sync_entries_skipped_purge_pending: u64,
    pub sync_repair_rounds: u64,
    pub sync_pulls: PullReport,
    pub runtime_stall_us: u64,
    pub tls_reloads_ok: u64,
    pub tls_reloads_failed: u64,
    pub jwks_refresh_ok: u64,
    pub jwks_refresh_failed: u64,
    pub latency_count: u64,
    pub latency_sum_us: u64,
    pub backup_duration_sum_us: u64,
    pub index_unkeyed: u64,
    pub index_undecidable: u64,
    pub write_lock_wait_timeouts: u64,
    pub write_lock_held_max_us: u64,
    /// Holds of the writer, and microseconds it was held for, by holder.
    pub write_lock_holds: [u64; 12],
    pub write_lock_held_us: [u64; 12],
    pub write_lock_hold: HoldDecomposition,
    pub sync_serve: ServeSnapshot,
    pub webhook_active: u64,
    pub webhook_invalidated: u64,
    pub webhook_unreadable: u64,
    pub cluster_members: u64,
    /// Seconds since each of [`PROGRESS_WRITERS`] last made progress, or since
    /// the process started before its first. `None` for a writer this node
    /// does not run.
    pub task_progress_age_secs: [Option<u64>; 5],
    pub sync_ddl_relogged: u64,
    /// Seconds since the last contact whose round ran the divergence check.
    pub sync_divergence_check_age_secs: u64,
    pub sync_held_marks_released: u64,
    pub sync_held_marks: u64,
    /// The embedding worker's counters, all zero where it does not run.
    pub embed_documents_embedded: u64,
    pub embed_chunks_embedded: u64,
    pub embed_deferred: u64,
    pub embed_skipped_not_owned: u64,
    pub embed_skipped_no_shadow: u64,
    pub embed_failures: u64,
    /// Transport failures: connect, timeout, reset, other.
    pub embed_transport: [u64; 4],
    pub embed_provider_requests: u64,
    pub embed_provider_tokens: u64,
}

/// Which bucket an observation falls in: the first whose bound it does not
/// exceed; none above them all.
pub open spec fn bucket_of(bounds: Seq<u64>, micros: u64) -> Option<int>
    decreases bounds.len(),
{
    if bounds.len() == 0 {
        None
    } else if micros <= bounds[0] {
        Some(0)
    } else {
        match bucket_of(bounds.skip(1), micros) {
            Some(i) => Some(i + 1),
            None => None,
        }
    }
}

/// The buckets after one more observation.
pub open spec fn observed(bounds: Seq<u64>, counts: Seq<u64>, micros: u64) -> Seq<u64> {
    match bucket_of(bounds, micros) {
        Some(i) => counts.update(i, counts[i].wrapping_add(1)),
        None => counts,
    }
}

fn find_bucket(bounds: &[u64], micros: u64) -> (slot: Option<usize>)
    ensures
        slot is Some <==> bucket_of(bounds@, micros) is Some,
        slot matches Some(i) ==> i < bounds@.len() && bucket_of(bounds@, micros) == Some(i as int),
{
    let mut i: usize = 0;
    assert(bounds@.skip(0) =~= bounds@);
    while i < bounds.len()
        invariant
            i <= bounds.len(),
            bucket_of(bounds@, micros) == (match bucket_of(bounds@.skip(i as int), micros) {
                Some(k) => Some(k + i),
                None => None::<int>,
            }),
        decreases bounds.len() - i,
    {
        if micros <= bounds[i] {
            return Some(i);
        }
        assert(bounds@.skip(i as int).skip(1) =~= bounds@.skip(i + 1));
        i = i + 1;
    }
    None
}

/// A number of microseconds, at most what 64 bits hold.
pub open spec fn clamped(micros: u128) -> u64 {
    if micros > u64::MAX {
        u64::MAX
    } else {
        micros as u64
    }
}

fn clamp_micros(micros: u128) -> (us: u64)
    ensures
        us == clamped(micros),
{
    if micros > 0xffff_ffff_ffff_ffff {
        u64::MAX
    } else {
        micros as u64
    }
}

/// Seconds from `last` to `now`, whole; zero where `now` is not later.
pub open spec fn seconds_between(last: u64, now: u64) -> u64 {
    if now > last {
        ((now - last) / 1_000_000_000) as u64
    } else {
        0
    }
}

impl Metrics {
    /// Every counter at zero, nothing yet reported, at `started`.
    pub open spec fn fresh(self, started: u64) -> bool {
        &&& self.started == started
        &&& zeros(self.latency_buckets@)
        &&& zeros(self.backup_buckets@)
        &&& zeros(self.ddl_confirmations@)
        &&& self.sync_pulls.all_zero()
        &&& self.sync_divergence_last_check is None
        &&& self.stall_probe_progress is None
        &&& self.dispatcher_progress is None
        &&& self.replication_progress is None
        &&& self.progress_writers is None
        &&& self.latency_sum_us == 0
        &&& self.latency_count == 0
        &&& self.backup_sum_us == 0
        &&& self.replication_lag_ms == 0
        &&& self.sync_failures == 0
        &&& self.sync_peers_backing_off == 0
        &&& self.sync_ddl_refused == 0
        &&& self.sync_ddl_declined == 0
        &&& self.sync_ddl_applied_pull == 0
        &&& self.sync_ddl_applied_push == 0
        &&& self.sync_ddl_held_pull == 0
        &&& self.sync_ddl_held_push == 0
        &&& self.ddl_confirm_pushes == 0
        &&& self.sync_divergent_collections == 0
        &&& self.sync_divergence_checks == 0
        &&& self.sync_divergence_skips == 0
        &&& self.sync_divergence_count_compared == 0
        &&& self.sync_divergence_count_deferred == 0
        &&& self.sync_entries_skipped_unknown_collection == 0
        &&& self.sync_entries_skipped_beyond_advertised == 0
        &&& self.sync_entries_skipped_purge_pending == 0
        &&& self.sync_repair_rounds == 0
        &&& self.runtime_stall_us == 0
        &&& self.runtime_stall_otlp_us == 0
        &&& self.requests == 0
        &&& self.responses_2xx == 0
        &&& self.responses_4xx == 0
        &&& self.responses_5xx == 0
        &&& self.authz_denied == 0
        &&& self.auth_failures == 0
        &&& self.rate_limited == 0
        &&& self.rate_limited_principal == 0
        &&& self.backups == 0
        &&& self.webhook_delivered == 0
        &&& self.webhook_failed == 0
        &&& self.webhook_events == 0
        &&& self.webhook_backlog_secs == 0
        &&& self.tls_reloads_ok == 0
        &&& self.tls_reloads_failed == 0
        &&& self.jwks_refresh_ok == 0
        &&& self.jwks_refresh_failed == 0
        &&& self.ttl_expired == 0
        &&& self.ttl_skipped == 0
        &&& self.ttl_skipped_filter == 0
    }

    /// The counters of a process that started at `started`.
    pub fn new(started: u64) -> (m: Self)
        ensures
            m.fresh(started),
    {
        Metrics {
            started,
            latency_buckets: [0; 12],
            backup_buckets: [0; 10],
            ddl_confirmations: [0; 12],
            sync_pulls: PullReport::default(),
            sync_divergence_last_check: None,
            stall_probe_progress: None,
            dispatcher_progress: None,
            replication_progress: None,
            progress_writers: None,
            latency_sum_us: 0,
            latency_count: 0,
            backup_sum_us: 0,
            replication_lag_ms: 0,
            sync_failures: 0,
            sync_peers_backing_off: 0,
            sync_ddl_refused: 0,
            sync_ddl_declined: 0,
            sync_ddl_applied_pull: 0,
            sync_ddl_applied_push: 0,
            sync_ddl_held_pull: 0,
            sync_ddl_held_push: 0,
            ddl_confirm_pushes: 0,
            sync_divergent_collections: 0,
            sync_divergence_checks: 0,
            sync_divergence_skips: 0,
            sync_divergence_count_compared: 0,
            sync_divergence_count_deferred: 0,
            sync_entries_skipped_unknown_collection: 0,
            sync_entries_skipped_beyond_advertised: 0,
            sync_entries_skipped_purge_pending: 0,
            sync_repair_rounds: 0,
            runtime_stall_us: 0,
            runtime_stall_otlp_us: 0,
            requests: 0,
            responses_2xx: 0,
            responses_4xx: 0,
            responses_5xx: 0,
            authz_denied: 0,
            auth_failures: 0,
            rate_limited: 0,
            rate_limited_principal: 0,
            backups: 0,
            webhook_delivered: 0,
            webhook_failed: 0,
            webhook_events: 0,
            webhook_backlog_secs: 0,
            tls_reloads_ok: 0,
            tls_reloads_failed: 0,
            jwks_refresh_ok: 0,
            jwks_refresh_failed: 0,
            ttl_expired: 0,
            ttl_skipped: 0,
            ttl_skipped_filter: 0,
        }
    }
}

/// The counters after one finished request with this status.
pub open spec fn counted(m: Metrics, status: u16) -> Metrics {
    let m = Metrics { requests: m.requests.wrapping_add(1), ..m };
    let m = if 200 <= status <= 299 {
        Metrics { responses_2xx: m.responses_2xx.wrapping_add(1), ..m }
    } else if 400 <= status <= 499 {
        Metrics { responses_4xx: m.responses_4xx.wrapping_add(1), ..m }
    } else if 500 <= status <= 599 {
        Metrics { responses_5xx: m.responses_5xx.wrapping_add(1), ..m }
    } else {
        m
    };
    if status == 401 {
        Metrics { auth_failures: m.auth_failures.wrapping_add(1), ..m }
    } else if status == 403 {
        Metrics { authz_denied: m.authz_denied.wrapping_add(1), ..m }
    } else if status == 429 {
        Metrics { rate_limited: m.rate_limited.wrapping_add(1), ..m }
    } else {
        m
    }
}

impl Default for Metrics {
    /// The counters of a process that started at the clock's origin.
    fn default() -> (m: Self)
        ensures
            m.fresh(0),
    {
        Metrics::new(0)
    }
}

impl Metrics {
    /// Count one finished request.
    ///
    /// The three specific counters are derived from the status, because each
    /// of those statuses has exactly one source: 401 from token or credential
    /// rejection, 403 from access control, 429 from a rate limiter.
    pub fn record_request(&mut self, status: u16)
        ensures
            *final(self) == counted(*old(self), status),
    {
        self.requests = self.requests.wrapping_add(1);
        if 200 <= status && status <= 299 {
            self.responses_2xx = self.responses_2xx.wrapping_add(1);
        } else if 400 <= status && status <= 499 {
            self.responses_4xx = self.responses_4xx.wrapping_add(1);
        } else if 500 <= status && status <= 599 {
            self.responses_5xx = self.responses_5xx.wrapping_add(1);
        }
        match status {
            401 => {
                self.auth_failures = self.auth_failures.wrapping_add(1);
            },
            403 => {
                self.authz_denied = self.authz_denied.wrapping_add(1);
            },
            429 => {
                self.rate_limited = self.rate_limited.wrapping_add(1);
            },
            _ => {},
        }
    }

    /// One authenticated request refused by the per-principal limit. The
    /// response is a 429, which [`Metrics::record_request`] counts as well.
    pub fn record_principal_rate_limited(&mut self)
        ensures
            *final(self) == (Metrics {
                rate_limited_principal: old(self).rate_limited_principal.wrapping_add(1),
                ..*old(self)
            }),
    {
        self.rate_limited_principal = self.rate_limited_principal.wrapping_add(1);
    }

    /// One delivery attempt, and how many events it carried.
    ///
    /// Batches, not events, are counted as the outcome: a retried batch is one
    /// failure.
    pub fn record_webhook_delivery(&mut self, succeeded: bool, events: usize)
        ensures
            *final(self) == (if succeeded {
                Metrics {
                    webhook_delivered: old(self).webhook_delivered.wrapping_add(1),
                    webhook_events: old(self).webhook_events.wrapping_add(events as u64),
                    ..*old(self)
                }
            } else {
                Metrics { webhook_failed: old(self).webhook_failed.wrapping_add(1), ..*old(self) }
            }),
    {
        if succeeded {
            self.webhook_delivered = self.webhook_delivered.wrapping_add(1);
            self.webhook_events = self.webhook_events.wrapping_add(events as u64);
        } else {
            self.webhook_failed = self.webhook_failed.wrapping_add(1);
        }
    }

    /// The webhook backlog, set by the dispatcher once per pass that read the
    /// registry, and the dispatcher's progress with it.
    pub fn set_webhook_backlog(&mut self, backlog_secs: u64, now: u64)
        ensures
            *final(self) == (Metrics {
                webhook_backlog_secs: backlog_secs,
                dispatcher_progress: Some(now),
                ..*old(self)
            }),
    {
        self.webhook_backlog_secs = backlog_secs;
        self.dispatcher_progress = Some(now);
    }

    /// Record one request's end-to-end latency, in microseconds. Above every
    /// bound, only the count and the sum see it.
    pub fn record_latency(&mut self, micros: u128)
        ensures
            final(self).latency_buckets@ == observed(
                LATENCY_BUCKETS_US@,
                old(self).latency_buckets@,
                clamped(micros),
            ),
            *final(self) == (Metrics {
                latency_buckets: final(self).latency_buckets,
                latency_sum_us: old(self).latency_sum_us.wrapping_add(clamped(micros)),
                latency_count: old(self).latency_count.wrapping_add(1),
                ..*old(self)
            }),
    {
        let micros: u64 = clamp_micros(micros);
        match find_bucket(&LATENCY_BUCKETS_US, micros) {
            Some(slot) => {
                self.latency_buckets[slot] = self.latency_buckets[slot].wrapping_add(1);
            },
            None => {},
        }
        self.latency_sum_us = self.latency_sum_us.wrapping_add(micros);
        self.latency_count = self.latency_count.wrapping_add(1);
    }

    /// How far behind in time this node is, in milliseconds: set by the
    /// replication loop after each round.
    pub fn set_replication_lag_ms(&mut self, ms: u64)
        ensures
            *final(self) == (Metrics { replication_lag_ms: ms, ..*old(self) }),
    {
        self.replication_lag_ms = ms;
    }

    /// One sync tick of the replication loop.
    ///
    /// The counters accumulate; the backoff figure, the divergent collections
    /// and the two instants are each a level and replace the last one.
    pub fn record_sync_round(&mut self, round: &RoundReport)
        ensures
            old(self).sync_pulls.plus(round.pulls, final(self).sync_pulls),
            *final(self) == (Metrics {
                sync_pulls: final(self).sync_pulls,
                sync_peers_backing_off: round.backing_off as u64,
                sync_divergent_collections: round.divergent_collections as u64,
                sync_divergence_last_check: round.divergence_last_check,
                replication_progress: round.last_completed_round,
                sync_failures: old(self).sync_failures.wrapping_add(round.failed as u64),
                sync_ddl_refused: old(self).sync_ddl_refused.wrapping_add(round.ddl_refused as u64),
                sync_ddl_declined: old(self).sync_ddl_declined.wrapping_add(round.ddl_declined as u64),
                sync_ddl_applied_pull: old(self).sync_ddl_applied_pull.wrapping_add(round.ddl_applied as u64),
                sync_ddl_held_pull: old(self).sync_ddl_held_pull.wrapping_add(round.ddl_held as u64),
                sync_divergence_checks: old(self).sync_divergence_checks.wrapping_add(round.divergence_checks as u64),
                sync_divergence_skips: old(self).sync_divergence_skips.wrapping_add(round.divergence_skips as u64),
                sync_divergence_count_compared: old(self).sync_divergence_count_compared.wrapping_add(round.divergence_count_compared as u64),
                sync_divergence_count_deferred: old(self).sync_divergence_count_deferred.wrapping_add(round.divergence_count_deferred as u64),
                sync_entries_skipped_unknown_collection: old(self).sync_entries_skipped_unknown_collection.wrapping_add(round.entries_skipped_unknown_collection as u64),
                sync_entries_skipped_beyond_advertised: old(self).sync_entries_skipped_beyond_advertised.wrapping_add(round.entries_skipped_beyond_advertised as u64),
                sync_entries_skipped_purge_pending: old(self).sync_entries_skipped_purge_pending.wrapping_add(round.entries_skipped_purge_pending as u64),
                sync_repair_rounds: old(self).sync_repair_rounds.wrapping_add(round.repair_rounds as u64),
                ..*old(self)
            }),
    {
        self.sync_failures = self.sync_failures.wrapping_add(round.failed as u64);
        self.sync_ddl_refused = self.sync_ddl_refused.wrapping_add(round.ddl_refused as u64);
        self.sync_ddl_declined = self.sync_ddl_declined.wrapping_add(round.ddl_declined as u64);
        self.sync_ddl_applied_pull = self.sync_ddl_applied_pull.wrapping_add(round.ddl_applied as u64);
        self.sync_ddl_held_pull = self.sync_ddl_held_pull.wrapping_add(round.ddl_held as u64);
        self.sync_divergence_checks = self.sync_divergence_checks.wrapping_add(round.divergence_checks as u64);
        self.sync_divergence_skips = self.sync_divergence_skips.wrapping_add(round.divergence_skips as u64);
        self.sync_divergence_count_compared = self.sync_divergence_count_compared.wrapping_add(round.divergence_count_compared as u64);
        self.sync_divergence_count_deferred = self.sync_divergence_count_deferred.wrapping_add(round.divergence_count_deferred as u64);
        self.sync_repair_rounds = self.sync_repair_rounds.wrapping_add(round.repair_rounds as u64);
        self.sync_peers_backing_off = round.backing_off as u64;
        self.sync_divergent_collections = round.divergent_collections as u64;
        self.sync_divergence_last_check = round.divergence_last_check;
        self.replication_progress = round.last_completed_round;
        self.record_entries_skipped(
            round.entries_skipped_unknown_collection as u64,
            round.entries_skipped_beyond_advertised as u64,
            round.entries_skipped_purge_pending as u64,
        );
        self.sync_pulls.add_all(&round.pulls);
    }

    /// Count what a batch left rather than took, on the series a pulled and a
    /// pushed batch share.
    pub fn record_entries_skipped(&mut self, unknown_collection: u64, beyond_advertised: u64, purge_pending: u64)
        ensures
            *final(self) == (Metrics {
                sync_entries_skipped_unknown_collection: old(self).sync_entries_skipped_unknown_collection.wrapping_add(unknown_collection),
                sync_entries_skipped_beyond_advertised: old(self).sync_entries_skipped_beyond_advertised.wrapping_add(beyond_advertised),
                sync_entries_skipped_purge_pending: old(self).sync_entries_skipped_purge_pending.wrapping_add(purge_pending),
                ..*old(self)
            }),
    {
        self.sync_entries_skipped_unknown_collection = self.sync_entries_skipped_unknown_collection.wrapping_add(unknown_collection);
        self.sync_entries_skipped_beyond_advertised = self.sync_entries_skipped_beyond_advertised.wrapping_add(beyond_advertised);
        self.sync_entries_skipped_purge_pending = self.sync_entries_skipped_purge_pending.wrapping_add(purge_pending);
    }

    /// Count schema changes a peer pushed that this node could not apply and
    /// skipped, on the series a pulled refusal lands on.
    pub fn record_ddl_refused(&mut self, n: u64)
        ensures
            *final(self) == (Metrics { sync_ddl_refused: old(self).sync_ddl_refused.wrapping_add(n), ..*old(self) }),
    {
        self.sync_ddl_refused = self.sync_ddl_refused.wrapping_add(n);
    }

    /// Count index drops a peer pushed that this node declined as older than
    /// the index it holds, on the series a pulled decline lands on.
    pub fn record_ddl_declined(&mut self, n: u64)
        ensures
            *final(self) == (Metrics {
                sync_ddl_declined: old(self).sync_ddl_declined.wrapping_add(n),
                ..*old(self)
            }),
    {
        self.sync_ddl_declined = self.sync_ddl_declined.wrapping_add(n);
    }

    /// Everything a window a peer pushed to this node did: what it refused,
    /// declined and skipped, on the series a pulled window's land on, and what
    /// it applied and what it already held, as pushed.
    pub fn record_pushed(&mut self, outcome: &SyncOutcome)
        ensures
            *final(self) == (Metrics {
                sync_ddl_refused: old(self).sync_ddl_refused.wrapping_add(outcome.ddl_refused as u64),
                sync_ddl_declined: old(self).sync_ddl_declined.wrapping_add(outcome.ddl_declined as u64),
                sync_ddl_applied_push: old(self).sync_ddl_applied_push.wrapping_add(outcome.ddl as u64),
                sync_ddl_held_push: old(self).sync_ddl_held_push.wrapping_add(outcome.ddl_held as u64),
                sync_entries_skipped_unknown_collection: old(self).sync_entries_skipped_unknown_collection.wrapping_add(outcome.unknown_collection as u64),
                sync_entries_skipped_beyond_advertised: old(self).sync_entries_skipped_beyond_advertised.wrapping_add(outcome.deferred as u64),
                sync_entries_skipped_purge_pending: old(self).sync_entries_skipped_purge_pending.wrapping_add(outcome.purge_pending as u64),
                ..*old(self)
            }),
    {
        self.record_ddl_refused(outcome.ddl_refused as u64);
        self.record_ddl_declined(outcome.ddl_declined as u64);
        self.record_ddl_applied_push(outcome.ddl as u64);
        self.record_ddl_held_push(outcome.ddl_held as u64);
        self.record_entries_skipped(
            outcome.unknown_collection as u64,
            outcome.deferred as u64,
            outcome.purge_pending as u64,
        );
    }

    /// One schema-change confirmation on one member, by how it ended.
    pub fn record_ddl_confirmation(&mut self, outcome: ConfirmOutcome)
        ensures
            final(self).ddl_confirmations@ == old(self).ddl_confirmations@.update(
                outcome.place(),
                old(self).ddl_confirmations@[outcome.place()].wrapping_add(1),
            ),
            *final(self) == (Metrics {
                ddl_confirmations: final(self).ddl_confirmations,
                ..*old(self)
            }),
    {
        let slot: usize = outcome.slot();
        self.ddl_confirmations[slot] = self.ddl_confirmations[slot].wrapping_add(1);
    }

    /// One window pushed to confirm schema changes.
    pub fn record_ddl_confirm_push(&mut self)
        ensures
            *final(self) == (Metrics {
                ddl_confirm_pushes: old(self).ddl_confirm_pushes.wrapping_add(1),
                ..*old(self)
            }),
    {
        self.ddl_confirm_pushes = self.ddl_confirm_pushes.wrapping_add(1);
    }

    /// Count schema changes a peer pushed to this node that it applied.
    pub fn record_ddl_applied_push(&mut self, n: u64)
        ensures
            *final(self) == (Metrics {
                sync_ddl_applied_push: old(self).sync_ddl_applied_push.wrapping_add(n),
                ..*old(self)
            }),
    {
        self.sync_ddl_applied_push = self.sync_ddl_applied_push.wrapping_add(n);
    }

    /// Count schema changes a peer pushed to this node that it already held.
    pub fn record_ddl_held_push(&mut self, n: u64)
        ensures
            *final(self) == (Metrics {
                sync_ddl_held_push: old(self).sync_ddl_held_push.wrapping_add(n),
                ..*old(self)
            }),
    {
        self.sync_ddl_held_push = self.sync_ddl_held_push.wrapping_add(n);
    }

    /// One backup produced, and how long it took in microseconds.
    pub fn record_backup(&mut self, micros: u128)
        ensures
            final(self).backup_buckets@ == observed(
                BACKUP_BUCKETS_US@,
                old(self).backup_buckets@,
                clamped(micros),
            ),
            *final(self) == (Metrics {
                backup_buckets: final(self).backup_buckets,
                backup_sum_us: old(self).backup_sum_us.wrapping_add(clamped(micros)),
                backups: old(self).backups.wrapping_add(1),
                ..*old(self)
            }),
    {
        let micros: u64 = clamp_micros(micros);
        match find_bucket(&BACKUP_BUCKETS_US, micros) {
            Some(slot) => {
                self.backup_buckets[slot] = self.backup_buckets[slot].wrapping_add(1);
            },
            None => {},
        }
        self.backup_sum_us = self.backup_sum_us.wrapping_add(micros);
        self.backups = self.backups.wrapping_add(1);
    }

    /// One collection's expiry pass: documents deleted, candidates refreshed
    /// before the delete, and candidates the partial filter did not select.
    pub fn record_expiry(&mut self, expired: u64, skipped: u64, skipped_filter: u64)
        ensures
            *final(self) == (Metrics {
                ttl_expired: old(self).ttl_expired.wrapping_add(expired),
                ttl_skipped: old(self).ttl_skipped.wrapping_add(skipped),
                ttl_skipped_filter: old(self).ttl_skipped_filter.wrapping_add(skipped_filter),
                ..*old(self)
            }),
    {
        self.ttl_expired = self.ttl_expired.wrapping_add(expired);
        self.ttl_skipped = self.ttl_skipped.wrapping_add(skipped);
        self.ttl_skipped_filter = self.ttl_skipped_filter.wrapping_add(skipped_filter);
    }

    /// Count one certificate reload attempt.
    pub fn record_tls_reload(&mut self, succeeded: bool)
        ensures
            *final(self) == (if succeeded {
                Metrics { tls_reloads_ok: old(self).tls_reloads_ok.wrapping_add(1), ..*old(self) }
            } else {
                Metrics { tls_reloads_failed: old(self).tls_reloads_failed.wrapping_add(1), ..*old(self) }
            }),
    {
        if succeeded {
            self.tls_reloads_ok = self.tls_reloads_ok.wrapping_add(1);
        } else {
            self.tls_reloads_failed = self.tls_reloads_failed.wrapping_add(1);
        }
    }

    /// Count one attempt to refresh the identity provider's signing keys.
    pub fn record_jwks_refresh(&mut self, succeeded: bool)
        ensures
            *final(self) == (if succeeded {
                Metrics { jwks_refresh_ok: old(self).jwks_refresh_ok.wrapping_add(1), ..*old(self) }
            } else {
                Metrics { jwks_refresh_failed: old(self).jwks_refresh_failed.wrapping_add(1), ..*old(self) }
            }),
    {
        if succeeded {
            self.jwks_refresh_ok = self.jwks_refresh_ok.wrapping_add(1);
        } else {
            self.jwks_refresh_failed = self.jwks_refresh_failed.wrapping_add(1);
        }
    }

    /// Record how late the runtime probe woke up, in microseconds. Each mark
    /// keeps the maximum until its own reader clears it, and each wake is the
    /// probe's progress.
    pub fn record_runtime_stall(&mut self, late_us: u128, now: u64)
        ensures
            *final(self) == (Metrics {
                runtime_stall_us: larger(old(self).runtime_stall_us, clamped(late_us)),
                runtime_stall_otlp_us: larger(old(self).runtime_stall_otlp_us, clamped(late_us)),
                stall_probe_progress: Some(now),
                ..*old(self)
            }),
    {
        let us: u64 = clamp_micros(late_us);
        if self.runtime_stall_us < us {
            self.runtime_stall_us = us;
        }
        if self.runtime_stall_otlp_us < us {
            self.runtime_stall_otlp_us = us;
        }
        self.stall_probe_progress = Some(now);
    }

    /// The worst runtime stall since the page was last rendered, in
    /// microseconds; reading it clears the page's mark and no other.
    fn take_runtime_stall_us(&mut self) -> (us: u64)
        ensures
            us == old(self).runtime_stall_us,
            *final(self) == (Metrics { runtime_stall_us: 0, ..*old(self) }),
    {
        let us: u64 = self.runtime_stall_us;
        self.runtime_stall_us = 0;
        us
    }

    /// The worst runtime stall since the telemetry bridge last asked, in
    /// microseconds; reading it clears the bridge's mark and no other.
    pub fn take_runtime_stall_otlp_us(&mut self) -> (us: u64)
        ensures
            us == old(self).runtime_stall_otlp_us,
            *final(self) == (Metrics { runtime_stall_otlp_us: 0, ..*old(self) }),
    {
        let us: u64 = self.runtime_stall_otlp_us;
        self.runtime_stall_otlp_us = 0;
        us
    }

    /// Seconds since the process started.
    pub fn uptime_secs(&self, clock: u64) -> (secs: u64)
        ensures
            secs == seconds_between(self.started, clock),
    {
        self.age_at(None, clock)
    }

    /// Seconds from `last` to `now`, or from the process start when there is
    /// no `last` yet: the one rule every age follows.
    pub open spec fn age(self, last: Option<u64>, now: u64) -> u64 {
        match last {
            Some(at) => seconds_between(at, now),
            None => seconds_between(self.started, now),
        }
    }

    fn age_at(&self, last: Option<u64>, now: u64) -> (secs: u64)
        ensures
            secs == self.age(last, now),
    {
        let from: u64 = match last {
            Some(at) => at,
            None => self.started,
        };
        if now > from {
            (now - from) / 1_000_000_000
        } else {
            0
        }
    }

    /// Whether this node runs the writer in `slot`: every writer, until
    /// startup has fixed the set.
    pub open spec fn runs_slot(self, slot: int) -> bool {
        match self.progress_writers {
            Some(fixed) => fixed@[slot],
            None => true,
        }
    }

    fn runs(&self, slot: usize) -> (b: bool)
        requires
            slot < 5,
        ensures
            b == self.runs_slot(slot as int),
    {
        match self.progress_writers {
            Some(fixed) => fixed[slot],
            None => true,
        }
    }

    /// Fix which of [`PROGRESS_WRITERS`] this node runs, from the tasks startup
    /// supervised. A second call is ignored, so the label set is the same on
    /// every scrape.
    pub fn fix_progress_writers(&mut self, started: &Vec<&str>)
        ensures
            old(self).progress_writers is Some ==> *final(self) == *old(self),
            old(self).progress_writers is None ==> {
                &&& *final(self) == (Metrics {
                    progress_writers: final(self).progress_writers,
                    ..*old(self)
                })
                &&& final(self).progress_writers is Some
                &&& runs_started(final(self).progress_writers->0@, started@)
            },
    {
        if self.progress_writers.is_some() {
            return;
        }
        let fixed: [bool; 5] = [
            holds(started, PROGRESS_WRITERS[0]),
            holds(started, PROGRESS_WRITERS[1]),
            holds(started, PROGRESS_WRITERS[2]),
            holds(started, PROGRESS_WRITERS[3]),
            holds(started, PROGRESS_WRITERS[4]),
        ];
        self.progress_writers = Some(fixed);
    }

    /// When the writer in `slot` last made progress.
    pub open spec fn last_progress(self, live: LiveReadings, slot: int) -> Option<u64> {
        if slot == 0 {
            live.purge_progress
        } else if slot == 1 {
            match live.worker {
                Some(worker) => worker.last_progress,
                None => None,
            }
        } else if slot == 2 {
            self.replication_progress
        } else if slot == 3 {
            self.stall_probe_progress
        } else {
            self.dispatcher_progress
        }
    }

    /// The progress age of the writer in `slot`, where this node runs it.
    pub open spec fn progress_age(self, live: LiveReadings, slot: int, now: u64) -> Option<u64> {
        if self.runs_slot(slot) {
            Some(self.age(self.last_progress(live, slot), now))
        } else {
            None
        }
    }

    /// Each writer's progress age as of `now`, in [`PROGRESS_WRITERS`] order,
    /// `None` for one this node does not run.
    fn task_progress_ages_at(&self, live: &LiveReadings, now: u64) -> (ages: [Option<u64>; 5])
        ensures
            forall|i: int|
                0 <= i < 5 ==> #[trigger] ages@[i] == self.progress_age(*live, i, now),
    {
        let worker = match &live.worker {
            Some(worker) => worker.last_progress,
            None => None,
        };
        [
            self.progress_age_of(0, live.purge_progress, now),
            self.progress_age_of(1, worker, now),
            self.progress_age_of(2, self.replication_progress, now),
            self.progress_age_of(3, self.stall_probe_progress, now),
            self.progress_age_of(4, self.dispatcher_progress, now),
        ]
    }

    fn progress_age_of(&self, slot: usize, last: Option<u64>, now: u64) -> (age: Option<u64>)
        requires
            slot < 5,
        ensures
            age == (if self.runs_slot(slot as int) {
                Some(self.age(last, now))
            } else {
                None::<u64>
            }),
    {
        if self.runs(slot) {
            Some(self.age_at(last, now))
        } else {
            None
        }
    }

    /// Seconds since the divergence check last ran, or since the process
    /// started before the first: never 0 for "not yet". 0 on a node that runs
    /// no replication loop, where there is nothing to check against.
    pub open spec fn check_age(self, now: u64) -> u64 {
        if self.runs_slot(2) {
            self.age(self.sync_divergence_last_check, now)
        } else {
            0
        }
    }

    fn sync_divergence_check_age_secs_at(&self, now: u64) -> (secs: u64)
        ensures
            secs == self.check_age(now),
    {
        if self.runs(2) {
            self.age_at(self.sync_divergence_last_check, now)
        } else {
            0
        }
    }

    /// Whether `s` is every counter, level and reading of this moment, each
    /// under its own name.
    pub open spec fn reads_as(
        self,
        readings: StorageReadings,
        live: LiveReadings,
        now: u64,
        s: MetricsSnapshot,
    ) -> bool {
        &&& s.databases == readings.databases
        &&& s.collections == readings.collections
        &&& s.unique_violations == readings.unique_violations
        &&& s.commits == readings.commits
        &&& s.fsyncs == readings.fsyncs
        &&& s.commits_grouped == readings.commits_grouped
        &&& s.storage_bytes == readings.storage_bytes
        &&& s.vector_index_cache_bytes == readings.vector_index_cache_bytes
        &&& s.process_resident_bytes == readings.process_resident_bytes
        &&& s.process_resident_peak_bytes == readings.process_resident_peak_bytes
        &&& s.index_unkeyed == readings.index_unkeyed
        &&& s.index_undecidable == readings.index_undecidable
        &&& s.write_lock_wait_timeouts == readings.writer_wait_timeouts
        &&& s.write_lock_held_max_us == readings.writer_hold_max_us
        &&& s.write_lock_holds == readings.writer_hold.count
        &&& s.write_lock_held_us == readings.writer_hold.sum_us
        &&& s.write_lock_hold == readings.writer_hold_decomposition
        &&& s.sync_serve == readings.serve
        &&& s.webhook_active == readings.webhook_active
        &&& s.webhook_invalidated == readings.webhook_invalidated
        &&& s.webhook_unreadable == readings.webhook_unreadable
        &&& s.cluster_members == readings.cluster_members
        &&& s.sync_ddl_relogged == readings.sync_ddl_relogged
        &&& s.sync_held_marks_released == readings.held_marks_released
        &&& s.sync_held_marks == readings.held_marks
        &&& s.requests == self.requests
        &&& s.responses_2xx == self.responses_2xx
        &&& s.responses_4xx == self.responses_4xx
        &&& s.responses_5xx == self.responses_5xx
        &&& s.authz_denied == self.authz_denied
        &&& s.auth_failures == self.auth_failures
        &&& s.rate_limited == self.rate_limited
        &&& s.rate_limited_principal == self.rate_limited_principal
        &&& s.backups == self.backups
        &&& s.ttl_expired == self.ttl_expired
        &&& s.ttl_skipped == self.ttl_skipped
        &&& s.ttl_skipped_filter == self.ttl_skipped_filter
        &&& s.webhook_delivered == self.webhook_delivered
        &&& s.webhook_failed == self.webhook_failed
        &&& s.webhook_events == self.webhook_events
        &&& s.webhook_backlog_secs == self.webhook_backlog_secs
        &&& s.replication_lag_ms == self.replication_lag_ms
        &&& s.sync_failures == self.sync_failures
        &&& s.sync_peers_backing_off == self.sync_peers_backing_off
        &&& s.sync_ddl_refused == self.sync_ddl_refused
        &&& s.sync_ddl_declined == self.sync_ddl_declined
        &&& s.sync_ddl_applied_pull == self.sync_ddl_applied_pull
        &&& s.sync_ddl_applied_push == self.sync_ddl_applied_push
        &&& s.sync_ddl_held_pull == self.sync_ddl_held_pull
        &&& s.sync_ddl_held_push == self.sync_ddl_held_push
        &&& s.ddl_confirmations == self.ddl_confirmations
        &&& s.ddl_confirm_pushes == self.ddl_confirm_pushes
        &&& s.sync_divergent_collections == self.sync_divergent_collections
        &&& s.sync_divergence_checks == self.sync_divergence_checks
        &&& s.sync_divergence_skips == self.sync_divergence_skips
        &&& s.sync_divergence_count_compared == self.sync_divergence_count_compared
        &&& s.sync_divergence_count_deferred == self.sync_divergence_count_deferred
        &&& s.sync_entries_skipped_unknown_collection == self.sync_entries_skipped_unknown_collection
        &&& s.sync_entries_skipped_beyond_advertised == self.sync_entries_skipped_beyond_advertised
        &&& s.sync_entries_skipped_purge_pending == self.sync_entries_skipped_purge_pending
        &&& s.sync_repair_rounds == self.sync_repair_rounds
        &&& s.sync_pulls == self.sync_pulls
        &&& s.runtime_stall_us == self.runtime_stall_us
        &&& s.tls_reloads_ok == self.tls_reloads_ok
        &&& s.tls_reloads_failed == self.tls_reloads_failed
        &&& s.jwks_refresh_ok == self.jwks_refresh_ok
        &&& s.jwks_refresh_failed == self.jwks_refresh_failed
        &&& s.latency_count == self.latency_count
        &&& s.latency_sum_us == self.latency_sum_us
        &&& s.backup_duration_sum_us == self.backup_sum_us
        &&& s.uptime_secs == seconds_between(self.started, live.clock)
        &&& s.sync_divergence_check_age_secs == self.check_age(now)
        &&& forall|i: int|
            0 <= i < 5 ==> #[trigger] s.task_progress_age_secs@[i] == self.progress_age(
                live,
                i,
                now,
            )
        &&& s.embed_provider_requests == live.provider_requests
        &&& s.embed_provider_tokens == live.provider_tokens
        &&& match live.worker {
            Some(worker) => {
                &&& s.embed_documents_embedded == worker.documents_embedded
                &&& s.embed_chunks_embedded == worker.chunks_embedded
                &&& s.embed_deferred == worker.deferred
                &&& s.embed_skipped_not_owned == worker.skipped_not_owned
                &&& s.embed_skipped_no_shadow == worker.skipped_no_shadow
                &&& s.embed_failures == worker.failures
                &&& s.embed_transport == worker.transport
            },
            None => {
                &&& s.embed_documents_embedded == 0
                &&& s.embed_chunks_embedded == 0
                &&& s.embed_deferred == 0
                &&& s.embed_skipped_not_owned == 0
                &&& s.embed_skipped_no_shadow == 0
                &&& s.embed_failures == 0
                &&& zeros(s.embed_transport@)
            },
        }
    }

    /// Every counter, read once, with the engine's readings filled in and the
    /// ages measured against `now`. A plain read: it clears nothing.
    pub fn snapshot_with_at(
        &self,
        readings: &StorageReadings,
        live: &LiveReadings,
        now: u64,
    ) -> (s: MetricsSnapshot)
        ensures
            self.reads_as(*readings, *live, now, s),
    {
        let worker: WorkerCounters = match live.worker {
            Some(worker) => worker,
            None => WorkerCounters {
                documents_embedded: 0,
                chunks_embedded: 0,
                deferred: 0,
                skipped_not_owned: 0,
                skipped_no_shadow: 0,
                failures: 0,
                transport: [0; 4],
                last_progress: None,
            },
        };
        MetricsSnapshot {
            databases: readings.databases,
            collections: readings.collections,
            unique_violations: readings.unique_violations,
            commits: readings.commits,
            fsyncs: readings.fsyncs,
            commits_grouped: readings.commits_grouped,
            storage_bytes: readings.storage_bytes,
            vector_index_cache_bytes: readings.vector_index_cache_bytes,
            process_resident_bytes: readings.process_resident_bytes,
            process_resident_peak_bytes: readings.process_resident_peak_bytes,
            index_unkeyed: readings.index_unkeyed,
            index_undecidable: readings.index_undecidable,
            write_lock_wait_timeouts: readings.writer_wait_timeouts,
            write_lock_held_max_us: readings.writer_hold_max_us,
            write_lock_holds: readings.writer_hold.count,
            write_lock_held_us: readings.writer_hold.sum_us,
            write_lock_hold: readings.writer_hold_decomposition,
            sync_serve: readings.serve,
            webhook_active: readings.webhook_active,
            webhook_invalidated: readings.webhook_invalidated,
            webhook_unreadable: readings.webhook_unreadable,
            cluster_members: readings.cluster_members,
            sync_ddl_relogged: readings.sync_ddl_relogged,
            sync_held_marks_released: readings.held_marks_released,
            sync_held_marks: readings.held_marks,
            requests: self.requests,
            responses_2xx: self.responses_2xx,
            responses_4xx: self.responses_4xx,
            responses_5xx: self.responses_5xx,
            authz_denied: self.authz_denied,
            auth_failures: self.auth_failures,
            rate_limited: self.rate_limited,
            rate_limited_principal: self.rate_limited_principal,
            backups: self.backups,
            ttl_expired: self.ttl_expired,
            ttl_skipped: self.ttl_skipped,
            ttl_skipped_filter: self.ttl_skipped_filter,
            webhook_delivered: self.webhook_delivered,
            webhook_failed: self.webhook_failed,
            webhook_events: self.webhook_events,
            webhook_backlog_secs: self.webhook_backlog_secs,
            replication_lag_ms: self.replication_lag_ms,
            sync_failures: self.sync_failures,
            sync_peers_backing_off: self.sync_peers_backing_off,
            sync_ddl_refused: self.sync_ddl_refused,
            sync_ddl_declined: self.sync_ddl_declined,
            sync_ddl_applied_pull: self.sync_ddl_applied_pull,
            sync_ddl_applied_push: self.sync_ddl_applied_push,
            sync_ddl_held_pull: self.sync_ddl_held_pull,
            sync_ddl_held_push: self.sync_ddl_held_push,
            ddl_confirmations: self.ddl_confirmations,
            ddl_confirm_pushes: self.ddl_confirm_pushes,
            sync_divergent_collections: self.sync_divergent_collections,
            sync_divergence_checks: self.sync_divergence_checks,
            sync_divergence_skips: self.sync_divergence_skips,
            sync_divergence_count_compared: self.sync_divergence_count_compared,
            sync_divergence_count_deferred: self.sync_divergence_count_deferred,
            sync_entries_skipped_unknown_collection: self.sync_entries_skipped_unknown_collection,
            sync_entries_skipped_beyond_advertised: self.sync_entries_skipped_beyond_advertised,
            sync_entries_skipped_purge_pending: self.sync_entries_skipped_purge_pending,
            sync_repair_rounds: self.sync_repair_rounds,
            sync_pulls: self.sync_pulls,
            runtime_stall_us: self.runtime_stall_us,
            tls_reloads_ok: self.tls_reloads_ok,
            tls_reloads_failed: self.tls_reloads_failed,
            jwks_refresh_ok: self.jwks_refresh_ok,
            jwks_refresh_failed: self.jwks_refresh_failed,
            latency_count: self.latency_count,
            latency_sum_us: self.latency_sum_us,
            backup_duration_sum_us: self.backup_sum_us,
            uptime_secs: self.uptime_secs(live.clock),
            sync_divergence_check_age_secs: self.sync_divergence_check_age_secs_at(now),
            task_progress_age_secs: self.task_progress_ages_at(live, now),
            embed_provider_requests: live.provider_requests,
            embed_provider_tokens: live.provider_tokens,
            embed_documents_embedded: worker.documents_embedded,
            embed_chunks_embedded: worker.chunks_embedded,
            embed_deferred: worker.deferred,
            embed_skipped_not_owned: worker.skipped_not_owned,
            embed_skipped_no_shadow: worker.skipped_no_shadow,
            embed_failures: worker.failures,
            embed_transport: worker.transport,
        }
    }
}

/// The larger of two numbers.
pub open spec fn larger(a: u64, b: u64) -> u64 {
    if a < b {
        b
    } else {
        a
    }
}

fn holds(names: &Vec<&str>, name: &str) -> (b: bool)
    ensures
        b == exists|k: int| 0 <= k < names@.len() && #[trigger] names@[k]@ == name@,
{
    let mut i: usize = 0;
    while i < names.len()
        invariant
            i <= names.len(),
            forall|k: int| 0 <= k < i ==> #[trigger] names@[k]@ != name@,
        decreases names.len() - i,
    {
        if *names[i] == *name {
            return true;
        }
        i = i + 1;
    }
    false
}

} // verus!
