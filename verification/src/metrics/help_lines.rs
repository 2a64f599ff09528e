//! Each HELP text is one line.

use vstd::prelude::*;
use vstd::string::*;

use super::help;
use super::lines::one_line;

verus! {

pub proof fn lemma_writer_wait_help()
    ensures
        one_line(help::H_WRITE_LOCK_WAIT_SECONDS@),
{
    assert(one_line(help::H_WRITE_LOCK_WAIT_SECONDS@)) by {
        reveal_strlit(
            "How long a write transaction waited for the storage writer before it could begin. The part of a write's latency that is not its own work: a bulk, a repair or a retention pass holding the writer shows here on every other write.",
        );
        reveal(one_line);
    }
}

pub proof fn lemma_writer_hold_help()
    ensures
        one_line(help::H_WRITE_LOCK_HELD_SECONDS@),
{
    assert(one_line(help::H_WRITE_LOCK_HELD_SECONDS@)) by {
        reveal_strlit(
            "How long a transaction held the storage writer, by what held it. Every other write on the node waited behind the hold, so this is the cause kimmy_write_lock_wait_seconds is the effect of.",
        );
        reveal(one_line);
    }
}

pub proof fn lemma_hold_decomposition_help()
    ensures
        one_line(help::H_WRITE_LOCK_HELD_COMPONENT_SECONDS_TOTAL@),
        one_line(help::H_WRITE_LOCK_HELD_PHASE_SECONDS_TOTAL@),
        one_line(help::H_WRITE_LOCK_HELD_IO_BYTES_TOTAL@),
        one_line(help::H_WRITE_LOCK_HELD_WRITE_ESTIMATED_SECONDS_TOTAL@),
        one_line(help::H_WRITE_LOCK_HELD_OVERCOUNTED_TOTAL@),
        one_line(help::H_WRITE_LOCK_HELD_CPU_UNMEASURED_TOTAL@),
{
    assert(one_line(help::H_WRITE_LOCK_HELD_COMPONENT_SECONDS_TOTAL@)) by {
        reveal_strlit(
            "Seconds holds of the storage writer spent, by holder and by what the holding thread was doing. read, write, sync: inside the storage file's page reads, page writes and fsyncs. cpu: on the CPU outside those - B-tree work over cached pages, encoding, index keys, bookkeeping. off_cpu: the rest - off the CPU outside any file call, which is scheduler delay or a wait on a lock inside the storage engine. The five add up to kimmy_write_lock_held_seconds_sum. off_cpu is a residual, so anything the other four fail to capture lands there too; read it beside kimmy_write_lock_held_write_estimated_seconds_total. cpu and off_cpu leave out holds counted in kimmy_write_lock_held_cpu_unmeasured_total.",
        );
        reveal(one_line);
    }
    assert(one_line(help::H_WRITE_LOCK_HELD_PHASE_SECONDS_TOTAL@)) by {
        reveal_strlit(
            "Seconds holds of the storage writer spent, by holder and by where in the transaction. work: from taking the writer to asking to commit, the whole hold of one that aborted. counts: writing the collections' live document counts, once per transaction. commit: the storage engine's commit, its page writes and fsync, to letting go. The three add up to kimmy_write_lock_held_seconds_sum.",
        );
        reveal(one_line);
    }
    assert(one_line(help::H_WRITE_LOCK_HELD_IO_BYTES_TOTAL@)) by {
        reveal_strlit(
            "Bytes holds of the storage writer read from and wrote to the storage file, by holder. Beside the read and write components: more bytes is more pages, and the same bytes in more seconds is slower pages.",
        );
        reveal(one_line);
    }
    assert(one_line(help::H_WRITE_LOCK_HELD_WRITE_ESTIMATED_SECONDS_TOTAL@)) by {
        reveal_strlit(
            "Seconds of page writes, inside holds of the storage writer, whose CPU time was estimated from a sample rather than read. The most by which cpu and off_cpu in kimmy_write_lock_held_component_seconds_total can be misattributed between each other, in either direction; 0 for a hold of 32 page writes or fewer, which is measured exactly.",
        );
        reveal(one_line);
    }
    assert(one_line(help::H_WRITE_LOCK_HELD_OVERCOUNTED_TOTAL@)) by {
        reveal_strlit(
            "Holds of the storage writer whose measured components came to more than the hold, past the clocks' tolerance: something was counted twice. Should read 0; it cannot see a component that was missed, which lands in off_cpu instead.",
        );
        reveal(one_line);
    }
    assert(one_line(help::H_WRITE_LOCK_HELD_CPU_UNMEASURED_TOTAL@)) by {
        reveal_strlit(
            "Holds of the storage writer, of any holder, whose thread CPU time could not be read, so they are not in the cpu and off_cpu components. Rises on every hold on a platform without a per-thread CPU clock; 0 on Linux and macOS.",
        );
        reveal(one_line);
    }
}

pub proof fn lemma_engine_help()
    ensures
        one_line(help::H_DATABASES@),
        one_line(help::H_COLLECTIONS@),
        one_line(help::H_UNIQUE_VIOLATIONS@),
        one_line(help::H_COMMITS@),
        one_line(help::H_FSYNCS@),
        one_line(help::H_COMMITS_GROUPED_TOTAL@),
        one_line(help::H_WRITE_LOCK_WAIT_TIMEOUTS_TOTAL@),
        one_line(help::H_WRITE_LOCK_HELD_SECONDS_MAX@),
{
    assert(one_line(help::H_DATABASES@)) by {
        reveal_strlit(
            "Number of databases.",
        );
        reveal(one_line);
    }
    assert(one_line(help::H_COLLECTIONS@)) by {
        reveal_strlit(
            "Number of collections across all databases.",
        );
        reveal(one_line);
    }
    assert(one_line(help::H_UNIQUE_VIOLATIONS@)) by {
        reveal_strlit(
            "Unique constraints broken by merging replicated writes.",
        );
        reveal(one_line);
    }
    assert(one_line(help::H_COMMITS@)) by {
        reveal_strlit(
            "Durable write transactions committed by the storage engine.",
        );
        reveal(one_line);
    }
    assert(one_line(help::H_FSYNCS@)) by {
        reveal_strlit(
            "Times the disk was asked to make something durable: one per commit under durable, one per shared flush under coalesced.",
        );
        reveal(one_line);
    }
    assert(one_line(help::H_COMMITS_GROUPED_TOTAL@)) by {
        reveal_strlit(
            "Commits made durable by a shared flush rather than their own fsync.",
        );
        reveal(one_line);
    }
    assert(one_line(help::H_WRITE_LOCK_WAIT_TIMEOUTS_TOTAL@)) by {
        reveal_strlit(
            "Writes that gave up waiting for the storage writer inside server.request_timeout_secs; nothing was written and the client was told to retry.",
        );
        reveal(one_line);
    }
    assert(one_line(help::H_WRITE_LOCK_HELD_SECONDS_MAX@)) by {
        reveal_strlit(
            "The longest any one transaction has held the storage writer since start. Every other write on the node waited behind it.",
        );
        reveal(one_line);
    }
}

pub proof fn lemma_process_help()
    ensures
        one_line(help::H_STORAGE_BYTES@),
        one_line(help::H_VECTOR_INDEX_CACHE_BYTES@),
        one_line(help::H_PROCESS_RESIDENT_BYTES@),
        one_line(help::H_PROCESS_RESIDENT_PEAK_BYTES@),
        one_line(help::H_UP@),
        one_line(help::H_UPTIME_SECONDS@),
        one_line(help::H_TASK_RETRIES_TOTAL@),
        one_line(help::H_TASK_PROGRESS_AGE_SECONDS@),
        one_line(help::H_RUNTIME_STALL_SECONDS@),
{
    assert(one_line(help::H_STORAGE_BYTES@)) by {
        reveal_strlit(
            "Size of the database file on disk.",
        );
        reveal(one_line);
    }
    assert(one_line(help::H_VECTOR_INDEX_CACHE_BYTES@)) by {
        reveal_strlit(
            "Estimated bytes of HNSW graphs held in memory across vector collections. Bounded by vector.index_cache.max_bytes; a graph larger than the whole budget is held anyway.",
        );
        reveal(one_line);
    }
    assert(one_line(help::H_PROCESS_RESIDENT_BYTES@)) by {
        reveal_strlit(
            "Resident memory of this process as the kernel reports it (VmRSS in /proc/self/status) - the figure a container memory limit is enforced against. Holds storage.cache_bytes, the HNSW graphs, and whatever heap the allocator keeps for reuse after a burst, which is why it does not follow the two byte gauges above down. 0 where /proc is not available.",
        );
        reveal(one_line);
    }
    assert(one_line(help::H_PROCESS_RESIDENT_PEAK_BYTES@)) by {
        reveal_strlit(
            "The most resident memory this process has had at any moment since it started (VmHWM) - what a container limit was reached by, readable after the current figure has come back down. 0 where /proc is not available.",
        );
        reveal(one_line);
    }
    assert(one_line(help::H_UP@)) by {
        reveal_strlit(
            "Always 1; presence indicates the node is serving.",
        );
        reveal(one_line);
    }
    assert(one_line(help::H_UPTIME_SECONDS@)) by {
        reveal_strlit(
            "Seconds since this process started serving.",
        );
        reveal(one_line);
    }
    assert(one_line(help::H_TASK_RETRIES_TOTAL@)) by {
        reveal_strlit(
            "Times a supervised background task retried its work in place after a transient failure, by task. A task whose count rises while nothing else changes is retrying for ever: alive, and doing no work. For the embedding worker, read it beside kimmy_task_progress_age_seconds, which rises through a retry that never succeeds.",
        );
        reveal(one_line);
    }
    assert(one_line(help::H_TASK_PROGRESS_AGE_SECONDS@)) by {
        reveal_strlit(
            "Seconds since a background writer last completed its work, computed when this page is read: a completed replication round, a stall-probe wake, a dispatcher pass, an embedding flush or idle turn. Since the process started before the first, never 0. Alert on this, and read the gauges a writer sets only while its age is fresh: a dead, stuck or retrying writer leaves them at their last value. A writer this node does not run has no row.",
        );
        reveal(one_line);
    }
    assert(one_line(help::H_RUNTIME_STALL_SECONDS@)) by {
        reveal_strlit(
            "Worst delay a 250 ms timer on the async runtime saw since the last scrape. Above a few tens of milliseconds, something blocked a worker thread - the storage lock or an fsync - and peers may have marked this node down.",
        );
        reveal(one_line);
    }
}

pub proof fn lemma_request_help()
    ensures
        one_line(help::H_REQUESTS_TOTAL@),
        one_line(help::H_RESPONSES_TOTAL@),
        one_line(help::H_AUTHZ_DENIED_TOTAL@),
        one_line(help::H_AUTH_FAILURES_TOTAL@),
        one_line(help::H_RATE_LIMITED_TOTAL@),
        one_line(help::H_RATE_LIMITED_PRINCIPAL_TOTAL@),
        one_line(help::H_BACKUPS_TOTAL@),
        one_line(help::H_TTL_EXPIRED_TOTAL@),
        one_line(help::H_TTL_SKIPPED_TOTAL@),
        one_line(help::H_TTL_SKIPPED_FILTER_TOTAL@),
        one_line(help::H_INDEX_UNKEYED_TOTAL@),
        one_line(help::H_INDEX_UNDECIDABLE_TOTAL@),
{
    assert(one_line(help::H_REQUESTS_TOTAL@)) by {
        reveal_strlit(
            "HTTP requests handled.",
        );
        reveal(one_line);
    }
    assert(one_line(help::H_RESPONSES_TOTAL@)) by {
        reveal_strlit(
            "HTTP responses by status class.",
        );
        reveal(one_line);
    }
    assert(one_line(help::H_AUTHZ_DENIED_TOTAL@)) by {
        reveal_strlit(
            "Operations refused by RBAC.",
        );
        reveal(one_line);
    }
    assert(one_line(help::H_AUTH_FAILURES_TOTAL@)) by {
        reveal_strlit(
            "Rejected credentials and tokens.",
        );
        reveal(one_line);
    }
    assert(one_line(help::H_RATE_LIMITED_TOTAL@)) by {
        reveal_strlit(
            "Requests refused by a rate limit.",
        );
        reveal(one_line);
    }
    assert(one_line(help::H_RATE_LIMITED_PRINCIPAL_TOTAL@)) by {
        reveal_strlit(
            "Authenticated requests refused by the per-principal rate limit. Also counted in kimmy_rate_limited_total; the difference is the login limiter.",
        );
        reveal(one_line);
    }
    assert(one_line(help::H_BACKUPS_TOTAL@)) by {
        reveal_strlit(
            "Backups served.",
        );
        reveal(one_line);
    }
    assert(one_line(help::H_TTL_EXPIRED_TOTAL@)) by {
        reveal_strlit(
            "Documents deleted by a TTL index.",
        );
        reveal(one_line);
    }
    assert(one_line(help::H_TTL_SKIPPED_TOTAL@)) by {
        reveal_strlit(
            "Expiry candidates refused because the document was refreshed before the delete.",
        );
        reveal(one_line);
    }
    assert(one_line(help::H_TTL_SKIPPED_FILTER_TOTAL@)) by {
        reveal_strlit(
            "Expiry candidates a TTL index held that its partial filter, evaluated as find evaluates it, did not select when the delete re-read the document, and were not deleted. A document moved out of the filter while the pass ran, or one the index should never have held. Should fall to near zero once partial-index membership agrees with the filter; until then each one is a document expiry used to delete.",
        );
        reveal(one_line);
    }
    assert(one_line(help::H_INDEX_UNKEYED_TOTAL@)) by {
        reveal_strlit(
            "Documents stored under an index that could not key them - arrays at two of a compound index's paths, more than 1000 keys, or a Decimal128 - and are rechecked on every scan of that index instead. Each one is logged at warning naming the index and the document; the index listing reports how many stand under each index as `unkeyed`. This counts that reason only; a document held because a partial filter could not decide it is kimmy_index_undecidable_total.",
        );
        reveal(one_line);
    }
    assert(one_line(help::H_INDEX_UNDECIDABLE_TOTAL@)) by {
        reveal_strlit(
            "Documents an index holds because its partial filter could not decide them: a Decimal128 at a filtered path, which the canonical order ranks equal to every number, so the filter's answer is not an answer. The index holds them and every scan re-checks them, which is what stops a partial index missing documents find returns. Expected, not a fault - the separate kimmy_index_unkeyed_total counts documents an index could not key, which is one.",
        );
        reveal(one_line);
    }
}

pub proof fn lemma_webhook_help()
    ensures
        one_line(help::H_WEBHOOK_DELIVERIES_TOTAL@),
        one_line(help::H_WEBHOOK_EVENTS_TOTAL@),
        one_line(help::H_WEBHOOK_SUBSCRIPTIONS@),
        one_line(help::H_WEBHOOK_BACKLOG_SECONDS@),
        one_line(help::H_CLUSTER_MEMBERS@),
        one_line(help::H_REPLICATION_LAG_SECONDS@),
        one_line(help::H_SYNC_FAILURES_TOTAL@),
        one_line(help::H_SYNC_PEERS_BACKING_OFF@),
        one_line(help::H_SYNC_DDL_REFUSED_TOTAL@),
        one_line(help::H_SYNC_DDL_DECLINED_TOTAL@),
        one_line(help::H_SYNC_DDL_APPLIED_TOTAL@),
        one_line(help::H_SYNC_DDL_HELD_TOTAL@),
{
    assert(one_line(help::H_WEBHOOK_DELIVERIES_TOTAL@)) by {
        reveal_strlit(
            "Webhook delivery attempts by outcome.",
        );
        reveal(one_line);
    }
    assert(one_line(help::H_WEBHOOK_EVENTS_TOTAL@)) by {
        reveal_strlit(
            "Change events pushed to endpoints.",
        );
        reveal(one_line);
    }
    assert(one_line(help::H_WEBHOOK_SUBSCRIPTIONS@)) by {
        reveal_strlit(
            "Registered subscriptions by state, counted from this node's registry when this page is read.",
        );
        reveal(one_line);
    }
    assert(one_line(help::H_WEBHOOK_BACKLOG_SECONDS@)) by {
        reveal_strlit(
            "Age of the oldest undelivered event, across subscriptions this node owns, as of the dispatcher's last pass; kimmy_task_progress_age_seconds says how old that is.",
        );
        reveal(one_line);
    }
    assert(one_line(help::H_CLUSTER_MEMBERS@)) by {
        reveal_strlit(
            "Peers this node's SWIM membership currently considers alive, counted when this page is read. 0 with clustering off.",
        );
        reveal(one_line);
    }
    assert(one_line(help::H_REPLICATION_LAG_SECONDS@)) by {
        reveal_strlit(
            "Seconds since the newest peer entry applied locally where a peer holds newer, max over peers in the last sync round, to the millisecond. Measured after each round against the vector the peer advertised when its pull opened, so it reads 0 once a round's pull reached that vector - including while entries the peer wrote since wait up to cluster.sync_interval_secs for the next round. Non-zero means a round ended with a pull still truncated: a backlog deeper than a tick could drain. 0 when clustering is off.",
        );
        reveal(one_line);
    }
    assert(one_line(help::H_SYNC_FAILURES_TOTAL@)) by {
        reveal_strlit(
            "Anti-entropy rounds against a peer that failed, any cause: unreachable, refused, or a batch this node could not apply. Rising while kimmy_replication_lag_seconds sits at 0 is a wedged peer, not a healthy one - a failed round reports no lag.",
        );
        reveal(one_line);
    }
    assert(one_line(help::H_SYNC_PEERS_BACKING_OFF@)) by {
        reveal_strlit(
            "Peers this node is currently backing off from after failed rounds. 0 when every peer answered its last round or clustering is off.",
        );
        reveal(one_line);
    }
    assert(one_line(help::H_SYNC_DDL_REFUSED_TOTAL@)) by {
        reveal_strlit(
            "Replicated schema changes this node could not apply to its own data and skipped - an index its peers hold and it does not. Each one is logged at warning with the reason.",
        );
        reveal(one_line);
    }
    assert(one_line(help::H_SYNC_DDL_DECLINED_TOTAL@)) by {
        reveal_strlit(
            "Replicated index drops this node declined as older than the index standing under the name here, and had not already recorded. A drop applied when it was current leaves a tombstone, so a re-served window carrying it past the recreation it preceded is a replay and is not counted. What is counted is a drop this member has never seen - a member whose clock ran ahead when it created the index, which is now the only member still holding it; drop it directly on that member.",
        );
        reveal(one_line);
    }
    assert(one_line(help::H_SYNC_DDL_APPLIED_TOTAL@)) by {
        reveal_strlit(
            "Replicated schema changes this node applied, by how they arrived: pull, a window this node pulled from a peer; push, a window a peer pushed to confirm a change it made (ADR-140). Counted per entry applied, not per entry received: a refused, declined or skipped entry is not counted here, and neither is a replayed drop this node had already recorded or a change for a collection dropped here, which no outcome series counts. Nor is a change whose entry this node already held as sent, which is not applied again and whose append commits nothing (a kind's own writes are unchanged); it is counted in kimmy_sync_ddl_held_total. A burst of N index changes on one member should read about N on each other member, summed over both labels; compare the increase over a burst, not the total.",
        );
        reveal(one_line);
    }
    assert(one_line(help::H_SYNC_DDL_HELD_TOTAL@)) by {
        reveal_strlit(
            "Replicated schema changes a window carried that this node already held, entry and all, by how they arrived: pull or push, as for kimmy_sync_ddl_applied_total. Not applied again: the append of the entry commits nothing, though a kind's own writes are unchanged (a drop of an index already gone still records its tombstone). Windows overlap by design - a pull that read this node's position before a push landed, a third member relaying what the origin pushed - and this is how much; for an index create it costs a read, not a commit.",
        );
        reveal(one_line);
    }
}

pub proof fn lemma_confirmation_help()
    ensures
        one_line(help::H_DDL_CONFIRMATIONS_TOTAL@),
        one_line(help::H_DDL_CONFIRM_PUSHES_TOTAL@),
        one_line(help::H_SYNC_DDL_RELOGGED_TOTAL@),
        one_line(help::H_SYNC_DIVERGENT_COLLECTIONS@),
        one_line(help::H_SYNC_DIVERGENCE_CHECKS_TOTAL@),
        one_line(help::H_SYNC_DIVERGENCE_COUNT_PROBES_TOTAL@),
        one_line(help::H_SYNC_DIVERGENCE_CHECK_AGE_SECONDS@),
{
    assert(one_line(help::H_DDL_CONFIRMATIONS_TOTAL@)) by {
        reveal_strlit(
            "Schema-change confirmations on a member, one per member per index create or drop this node made (ADR-140), by how each ended (ADR-191). confirmed: the member took the change and did not refuse it. refused: it could not apply it, or declined a drop older than the index it holds. The rest are pending, and anti-entropy carries the change: timeout, the request's deadline passed first; failed, the push errored or timed out; unreached, the member is more than a batch behind or below the retention horizon; purging, it is still purging a drop of the name; stopped_unknown, its batch stopped earlier at a collection it lacks; other_member, a different node answered at the address; task_ended, the push task panicked or was aborted; backoff, the member did not answer the last push and is not pushed to for a while; unattributable, the member runs a version whose answer does not name changes; cancelled, the request went away before an answer, with its client.",
        );
        reveal(one_line);
    }
    assert(one_line(help::H_DDL_CONFIRM_PUSHES_TOTAL@)) by {
        reveal_strlit(
            "Windows pushed to members to confirm schema changes (ADR-191). At most one is in flight per member, and each carries everything queued for it, so in a burst this rises far slower than kimmy_ddl_confirmations_total.",
        );
        reveal(one_line);
    }
    assert(one_line(help::H_SYNC_DDL_RELOGGED_TOTAL@)) by {
        reveal_strlit(
            "Schema changes a snapshot restore appended to this node's oplog so that it can serve them onward. Not an error: 0 on a member that never caught up by snapshot, and one per index definition a snapshot restored where it did not already hold the entry.",
        );
        reveal(one_line);
    }
    assert(one_line(help::H_SYNC_DIVERGENT_COLLECTIONS@)) by {
        reveal_strlit(
            "Collections a periodic cross-member check currently finds disagreeing with a peer - held there and not here, or held by both with a different document count - confirmed on two checks running. 0 on a converged cluster. Moves for a divergence that leaves every other sync series reading healthy, because nothing about it fails a round.",
        );
        reveal(one_line);
    }
    assert(one_line(help::H_SYNC_DIVERGENCE_CHECKS_TOTAL@)) by {
        reveal_strlit(
            "Contacts with a peer in which the cross-member divergence check above ran, and rounds that did not run it - completed with the pull truncated by the batch cap, or failed. kimmy_sync_divergent_collections reading 0 is evidence that the peers agree only while ran is rising; ran flat while skipped rises means nothing looked, which a bare 0 cannot say. A round that failed is counted in kimmy_sync_failures_total and here as skipped, so ran plus skipped is every round attempted.",
        );
        reveal(one_line);
    }
    assert(one_line(help::H_SYNC_DIVERGENCE_COUNT_PROBES_TOTAL@)) by {
        reveal_strlit(
            "Checked contacts in which the document-count half of the check compared the probed collection's count against the peer's, and checked contacts in which it was deferred because one member was behind the other and still catching up. compared flat while ran rises means no document count has been compared against any peer, whatever the gauge reads. A member that is behind but whose position has not moved for 3 consecutive checked contacts is compared regardless, so a member whose replication has stopped is not deferred for as long as it stays stopped.",
        );
        reveal(one_line);
    }
    assert(one_line(help::H_SYNC_DIVERGENCE_CHECK_AGE_SECONDS@)) by {
        reveal_strlit(
            "Seconds since the last contact, with any peer, in which the cross-member divergence check ran, computed when this page is read. Before the first such contact, seconds since the process started, never 0; 0 on a node without clustering, so alert on it only where kimmy_task_progress_age_seconds has a replication row. Above a few multiples of cluster.sync_interval_secs, kimmy_sync_divergent_collections is holding a value nothing has re-examined, whether the rounds are failing or the loop itself is stuck - look at kimmy_sync_failures_total, kimmy_sync_peers_backing_off and kimmy_write_lock_wait_seconds.",
        );
        reveal(one_line);
    }
}

pub proof fn lemma_sync_help()
    ensures
        one_line(help::H_SYNC_ENTRIES_SKIPPED_TOTAL@),
        one_line(help::H_SYNC_HELD_MARKS_RELEASED_TOTAL@),
        one_line(help::H_SYNC_HELD_MARKS@),
        one_line(help::H_SYNC_REPAIR_ROUNDS_TOTAL@),
        one_line(help::H_SYNC_PULLED_ENTRIES_TOTAL@),
        one_line(help::H_SYNC_ENTRY_WAIT_AHEAD_TOTAL@),
        one_line(help::H_SYNC_CONTACTS_TOTAL@),
{
    assert(one_line(help::H_SYNC_ENTRIES_SKIPPED_TOTAL@)) by {
        reveal_strlit(
            "Replicated entries a sync round left rather than took. unknown_collection: batches stopped at an entry for a collection this node has no record of - neither holding it nor a tombstone for it - because its creation was witnessed here without being applied, or has aged out of the peer's oplog; one per stopped batch, the window is re-served from the same place every round, and the round plans a snapshot from the peer to bring the collection. A collection dropped here is history instead and stops nothing. beyond_advertised: entries above the vector the peer advertised before serving the window, left for the next round, which asks for them from the right position; ordinary and rare on a busy cluster. A hole of either kind reads 0 on kimmy_replication_lag_seconds; this and kimmy_sync_divergent_collections are what move. purge_pending: batches stopped at a replicated creation, and snapshot pages that would create a collection, of a name whose earlier collection this node's drop purger is still removing (ADR-189); nothing is missing, so no snapshot is planned and a repair waiting on one is not abandoned, the window or page is asked for again from the same place until the purge is done, and nothing stamped after the creation is taken meanwhile, so kimmy_sync_divergence_check_age_seconds rises by design.",
        );
        reveal(one_line);
    }
    assert(one_line(help::H_SYNC_HELD_MARKS_RELEASED_TOTAL@)) by {
        reveal_strlit(
            "Entries this node held as state - written by a snapshot page, a carried delete or a scoped repair, above the vector it advertises - that arrived in a sync window served contiguously from its position and were released: the mark removed and both vectors raised over the entry. One per entry, counted when the batch commits. The release path itself: the beyond_advertised reason of kimmy_sync_entries_skipped_total rises on a peer while these entries are held and also for the ordinary race, and only this tells the two apart.",
        );
        reveal(one_line);
    }
    assert(one_line(help::H_SYNC_HELD_MARKS@)) by {
        reveal_strlit(
            "Entries this node holds as state rather than history - written by a snapshot page, a carried delete or a scoped repair above the vector it advertises - and still waiting to arrive in a sync window contiguous from its position, which releases them. A gauge, read at scrape. Non-zero is not a fault: a member caught up by snapshot holds entries until they arrive as history. Non-zero and not falling over many rounds is a member whose peers are not serving those entries, and each pull names them to its peers as spans until they are.",
        );
        reveal(one_line);
    }
    assert(one_line(help::H_SYNC_REPAIR_ROUNDS_TOTAL@)) by {
        reveal_strlit(
            "Sync rounds spent repairing against a peer: re-serving its oplog from the divergent collection's creation, or pulling its snapshot, after the divergence check confirmed a collection against it or a batch stopped at a collection this node lacks. Rising is a repair under way; it stops when the repair reaches the peer's tail.",
        );
        reveal(one_line);
    }
    assert(one_line(help::H_SYNC_PULLED_ENTRIES_TOTAL@)) by {
        reveal_strlit(
            "Entries sync pulls carried from peers, whatever became of each - applied, superseded, a schema change or left for a later window. Divide the growth of kimmy_sync_pull_seconds_sum{phase=\"apply\"} by the growth of this for what applying one entry costs, whatever size the batches were.",
        );
        reveal(one_line);
    }
    assert(one_line(help::H_SYNC_ENTRY_WAIT_AHEAD_TOTAL@)) by {
        reveal_strlit(
            "Sync pulls whose oldest entry this node lacked carried a timestamp later than this node's clock read when the batch arrived, so its wait could not be taken and is not in kimmy_sync_entry_wait_seconds. A peer's clock, or one its stamps witnessed, runs ahead of this node's; rising steadily is clock skew between members, and the wait histogram is under-reading by the pulls counted here.",
        );
        reveal(one_line);
    }
    assert(one_line(help::H_SYNC_CONTACTS_TOTAL@)) by {
        reveal_strlit(
            "Contacts with a peer in a sync tick, by how they ended. caught_up: the last pull did not come back truncated, so nothing more could be pulled at once. budget: a pull came back truncated and the next would not have fitted in what was left of cluster.sync_interval_secs, so a backlog was carried into the next tick. ceiling: truncated with time left, after the most pulls one contact may make. failed: a pull failed. budget rising is a backlog outliving a tick; kimmy_sync_pull_seconds says whether the tick's time went to the peer serving, to waiting for this node's writer, or to applying.",
        );
        reveal(one_line);
    }
}

pub proof fn lemma_embed_help()
    ensures
        one_line(help::H_TLS_RELOADS_TOTAL@),
        one_line(help::H_JWKS_REFRESH_TOTAL@),
        one_line(help::H_EMBED_DOCUMENTS_TOTAL@),
        one_line(help::H_EMBED_CHUNKS_TOTAL@),
        one_line(help::H_EMBED_DEFERRED_TOTAL@),
        one_line(help::H_EMBED_SKIPPED_NOT_OWNED_TOTAL@),
        one_line(help::H_EMBED_SKIPPED_NO_SHADOW_TOTAL@),
        one_line(help::H_EMBED_FAILURES_TOTAL@),
        one_line(help::H_EMBED_PROVIDER_ERRORS_TOTAL@),
        one_line(help::H_EMBED_PROVIDER_REQUESTS_TOTAL@),
        one_line(help::H_EMBED_PROVIDER_TOKENS_TOTAL@),
{
    assert(one_line(help::H_TLS_RELOADS_TOTAL@)) by {
        reveal_strlit(
            "Certificate reload attempts by outcome. A failed reload leaves the certificate already in use serving.",
        );
        reveal(one_line);
    }
    assert(one_line(help::H_JWKS_REFRESH_TOTAL@)) by {
        reveal_strlit(
            "Attempts to refresh the OIDC provider's signing keys, by outcome. A failed refresh leaves the key set already in use verifying.",
        );
        reveal(one_line);
    }
    assert(one_line(help::H_EMBED_DOCUMENTS_TOTAL@)) by {
        reveal_strlit(
            "Documents whose vectors this node wrote.",
        );
        reveal(one_line);
    }
    assert(one_line(help::H_EMBED_CHUNKS_TOTAL@)) by {
        reveal_strlit(
            "Provider inputs embedded - the closest proxy for provider spend.",
        );
        reveal(one_line);
    }
    assert(one_line(help::H_EMBED_DEFERRED_TOTAL@)) by {
        reveal_strlit(
            "Foreign-written documents held for a later re-check.",
        );
        reveal(one_line);
    }
    assert(one_line(help::H_EMBED_SKIPPED_NOT_OWNED_TOTAL@)) by {
        reveal_strlit(
            "Documents dropped un-embedded because another node owns embedding - the duplicate provider calls this counts replacing is the 3x amplification measured in the August 2026 load test.",
        );
        reveal(one_line);
    }
    assert(one_line(help::H_EMBED_SKIPPED_NO_SHADOW_TOTAL@)) by {
        reveal_strlit(
            "Documents and scans skipped because a collection is configured for vectors and its shadow collection is not on this node. Should read 0; rising means a configuration without the collection its vectors are stored in.",
        );
        reveal(one_line);
    }
    assert(one_line(help::H_EMBED_FAILURES_TOTAL@)) by {
        reveal_strlit(
            "Failed provider calls, including each retry. Climbing while embed_documents stays flat is a provider outage.",
        );
        reveal(one_line);
    }
    assert(one_line(help::H_EMBED_PROVIDER_ERRORS_TOTAL@)) by {
        reveal_strlit(
            "Provider calls that failed before a response, by what failed: connect (DNS, TCP, TLS), timeout, reset (the far side closed an open connection), other.",
        );
        reveal(one_line);
    }
    assert(one_line(help::H_EMBED_PROVIDER_REQUESTS_TOTAL@)) by {
        reveal_strlit(
            "Embedding provider calls answered, documents and search queries alike - compare with the provider's own request count.",
        );
        reveal(one_line);
    }
    assert(one_line(help::H_EMBED_PROVIDER_TOKENS_TOTAL@)) by {
        reveal_strlit(
            "Input tokens the embedding provider reported billing for - the number a metered provider's invoice is made of. Zero for providers that report none.",
        );
        reveal(one_line);
    }
}

pub proof fn lemma_latency_help()
    ensures
        one_line(help::H_REQUEST_DURATION_SECONDS@),
{
    assert(one_line(help::H_REQUEST_DURATION_SECONDS@)) by {
        reveal_strlit(
            "End-to-end request latency. Health and metrics routes are excluded, so scrapes do not crowd the buckets the real traffic lands in.",
        );
        reveal(one_line);
    }
}

pub proof fn lemma_backup_duration_help()
    ensures
        one_line(help::H_BACKUP_DURATION_SECONDS@),
{
    assert(one_line(help::H_BACKUP_DURATION_SECONDS@)) by {
        reveal_strlit(
            "How long a backup took to produce: the walk of the whole store and its spill to disk, before any of it was sent. Follows the store's size and whether the file is in page cache.",
        );
        reveal(one_line);
    }
}

pub proof fn lemma_sync_pulls_help()
    ensures
        one_line(help::H_SYNC_PULL_SECONDS@),
        one_line(help::H_SYNC_ENTRY_WAIT_SECONDS@),
{
    assert(one_line(help::H_SYNC_PULL_SECONDS@)) by {
        reveal_strlit(
            "Where a sync pull's time went, by phase, one observation per pull of a peer's oplog. serve: from asking the peer for a window to holding it - the peer walking its oplog and the wire. wait: applying the window, waiting for this node's single writer behind whatever else was writing. apply: applying the window less that wait - every entry's work, the commits and their fsync. The three add up to the pull, and each is a different fix. Under storage.durability = coalesced, the wait for the shared flush's window and for the flush another committer leads is in apply, so there apply includes queueing behind other committers. A snapshot page is not a pull and is not observed here.",
        );
        reveal(one_line);
    }
    assert(one_line(help::H_SYNC_ENTRY_WAIT_SECONDS@)) by {
        reveal_strlit(
            "How long the oldest entry a sync pull carried that this node lacked had waited when the pull arrived: from its origin's timestamp to this node's clock. The time an entry spends before any pull takes it - waiting for the next tick, or behind a backlog - which kimmy_sync_pull_seconds does not see. Crosses member clocks, so skew shifts it; a wait that would be negative is counted in kimmy_sync_entry_wait_ahead_total instead.",
        );
        reveal(one_line);
    }
}

pub proof fn lemma_sync_serve_help()
    ensures
        one_line(help::H_SYNC_SERVED_WINDOWS_TOTAL@),
        one_line(help::H_SYNC_SERVED_ENTRIES_TOTAL@),
        one_line(help::H_SYNC_SERVE_PASSED_ENTRIES_TOTAL@),
        one_line(help::H_SYNC_SERVE_WALK_READ_SECONDS_TOTAL@),
        one_line(help::H_SYNC_SERVE_WALK_READ_BYTES_TOTAL@),
        one_line(help::H_SYNC_SERVE_WALK_SECONDS@),
{
    assert(one_line(help::H_SYNC_SERVED_WINDOWS_TOTAL@)) by {
        reveal_strlit(
            "Windows of this node's oplog walked for peers that pulled from it, including one too large for a frame that the peer is asked to take in fewer entries.",
        );
        reveal(one_line);
    }
    assert(one_line(help::H_SYNC_SERVED_ENTRIES_TOTAL@)) by {
        reveal_strlit(
            "Entries the windows this node served to peers carried.",
        );
        reveal(one_line);
    }
    assert(one_line(help::H_SYNC_SERVE_PASSED_ENTRIES_TOTAL@)) by {
        reveal_strlit(
            "Entries the walks behind served windows examined and did not serve, mostly because the pulling peer already held them. A walk costs what it examines: this plus kimmy_sync_served_entries_total.",
        );
        reveal(one_line);
    }
    assert(one_line(help::H_SYNC_SERVE_WALK_READ_SECONDS_TOTAL@)) by {
        reveal_strlit(
            "Seconds the walks behind served windows spent reading pages of the storage file its cache did not hold: the serving load on this node's disk.",
        );
        reveal(one_line);
    }
    assert(one_line(help::H_SYNC_SERVE_WALK_READ_BYTES_TOTAL@)) by {
        reveal_strlit(
            "Bytes the walks behind served windows read from the storage file.",
        );
        reveal(one_line);
    }
    assert(one_line(help::H_SYNC_SERVE_WALK_SECONDS@)) by {
        reveal_strlit(
            "How long this node took to walk its oplog for one window served to a peer, the wire not included.",
        );
        reveal(one_line);
    }
}

} // verus!
