//! The rows of the `/metrics` page that come one for each label: each is a line of
//! its own.

use vstd::prelude::*;
use vstd::string::*;

use super::lines::{
    a_count_is_a_number, a_fraction_is_a_number, a_sample_is_one_line, goes_on, is_name, is_number,
    lemma_name_concat, lemma_number_is_one_line, lemma_one_line_concat, one_line, opens,
    parseable,
};
use super::page::{
    bucket_lines, component_rows, confirmation_rows, cumulative, estimated_rows, hold_rows,
    holder_label, holder_name, histogram, io_rows, label_alone, label_first, line, overcounted_rows,
    part_rows, phase_rows, progress_rows, task_rows, then_label,
};
use super::{
    HoldDecomposition, WriterHoldSnapshot, CONFIRM_OUTCOMES, HOLD_COMPONENTS, HOLD_PHASES,
    PROGRESS_WRITERS, TASKS, WRITER_HOLDERS, WRITER_HOLD_BUCKETS_US,
};
use crate::text::{decimal, fixed_point};

verus! {

pub proof fn lemma_holders(slot: int)
    requires
        0 <= slot < 12,
    ensures
        one_line(WRITER_HOLDERS@[slot]@),
{
    reveal(one_line);
    reveal_strlit("write");
    reveal_strlit("bulk");
    reveal_strlit("ddl");
    reveal_strlit("index_build");
    reveal_strlit("drop");
    reveal_strlit("replication");
    reveal_strlit("repair");
    reveal_strlit("retention");
    reveal_strlit("expiry");
    reveal_strlit("embedding");
    reveal_strlit("durability");
    reveal_strlit("rewind");
}

pub proof fn lemma_components(slot: int)
    requires
        0 <= slot < 5,
    ensures
        one_line(HOLD_COMPONENTS@[slot]@),
{
    reveal(one_line);
    reveal_strlit("read");
    reveal_strlit("write");
    reveal_strlit("sync");
    reveal_strlit("cpu");
    reveal_strlit("off_cpu");
}

pub proof fn lemma_phases(slot: int)
    requires
        0 <= slot < 3,
    ensures
        one_line(HOLD_PHASES@[slot]@),
{
    reveal(one_line);
    reveal_strlit("work");
    reveal_strlit("counts");
    reveal_strlit("commit");
}

pub proof fn lemma_tasks(slot: int)
    requires
        0 <= slot < 16,
    ensures
        one_line(TASKS@[slot]@),
{
    reveal(one_line);
    reveal_strlit("cert_reloader");
    reveal_strlit("drop_purger");
    reveal_strlit("embedding_worker");
    reveal_strlit("jwks_refresher");
    reveal_strlit("membership");
    reveal_strlit("membership_announce");
    reveal_strlit("membership_inbound");
    reveal_strlit("membership_timer");
    reveal_strlit("replication");
    reveal_strlit("replication_server");
    reveal_strlit("retention_collector");
    reveal_strlit("session_invalidator");
    reveal_strlit("stall_probe");
    reveal_strlit("ttl_expiry");
    reveal_strlit("vector_index_invalidator");
    reveal_strlit("webhook_dispatcher");
}

pub proof fn lemma_progress_writers(slot: int)
    requires
        0 <= slot < 5,
    ensures
        one_line(PROGRESS_WRITERS@[slot]@),
{
    reveal(one_line);
    reveal_strlit("drop_purger");
    reveal_strlit("embedding_worker");
    reveal_strlit("replication");
    reveal_strlit("stall_probe");
    reveal_strlit("webhook_dispatcher");
}

pub proof fn lemma_outcomes(slot: int)
    requires
        0 <= slot < 12,
    ensures
        one_line(CONFIRM_OUTCOMES@[slot]@),
{
    reveal(one_line);
    reveal_strlit("confirmed");
    reveal_strlit("refused");
    reveal_strlit("timeout");
    reveal_strlit("failed");
    reveal_strlit("unreached");
    reveal_strlit("purging");
    reveal_strlit("stopped_unknown");
    reveal_strlit("other_member");
    reveal_strlit("task_ended");
    reveal_strlit("backoff");
    reveal_strlit("unattributable");
    reveal_strlit("cancelled");
}

/// Whether a sample is there, by its name with its labels.
pub open spec fn has_sample(text: Seq<char>, name: Seq<char>) -> bool {
    opens(text, name + " "@)
}

/// The name of a histogram's bucket, up to its bound.
pub open spec fn bucket_prefix(name: Seq<char>, label: Seq<char>) -> Seq<char> {
    name + "_bucket{"@ + label_first(label) + "le=\""@
}

/// The name of a bucket by its bound in microseconds.
pub open spec fn bucket_name(prefix: Seq<char>, bound: u64) -> Seq<char> {
    prefix + fixed_point(bound as nat, 6) + "\"}"@
}

/// Whether a histogram's samples are there: a bucket for each bound, the bucket
/// of all, the sum and the count.
pub open spec fn has_histogram(
    text: Seq<char>,
    name: Seq<char>,
    label: Seq<char>,
    bounds: Seq<u64>,
) -> bool {
    &&& forall|i: int|
        0 <= i < bounds.len() ==> has_sample(
            text,
            bucket_name(bucket_prefix(name, label), #[trigger] bounds[i]),
        )
    &&& has_sample(text, bucket_prefix(name, label) + "+Inf\"}"@)
    &&& has_sample(text, name + "_sum"@ + label_alone(label))
    &&& has_sample(text, name + "_count"@ + label_alone(label))
}

proof fn lemma_buckets(
    out: Seq<char>,
    prefix: Seq<char>,
    bounds: Seq<u64>,
    counts: Seq<u64>,
    n: nat,
)
    requires
        parseable(out),
        is_name(prefix),
    ensures
        goes_on(out, bucket_lines(out, prefix, bounds, counts, n)),
        forall|i: int|
            0 <= i < n ==> has_sample(
                bucket_lines(out, prefix, bounds, counts, n),
                bucket_name(prefix, #[trigger] bounds[i]),
            ),
    decreases n,
{
    if n > 0 {
        lemma_buckets(out, prefix, bounds, counts, (n - 1) as nat);
        let bound = fixed_point(bounds[n - 1] as nat, 6);
        a_fraction_is_a_number(bounds[n - 1] as nat, 6);
        lemma_number_is_one_line(bound);
        lemma_name_concat(prefix, bound);
        assert(one_line("\"}"@)) by {
            reveal_strlit("\"}");
            reveal(one_line);
        }
        lemma_name_concat(prefix + bound, "\"}"@);
        a_count_is_a_number(cumulative(counts, n) as nat);
        a_sample_is_one_line(
            bucket_lines(out, prefix, bounds, counts, (n - 1) as nat),
            prefix + bound + "\"}"@,
            decimal(cumulative(counts, n) as nat),
        );
    }
}

pub broadcast proof fn lemma_histogram(
    out: Seq<char>,
    name: Seq<char>,
    label: Seq<char>,
    bounds: Seq<u64>,
    counts: Seq<u64>,
    count: u64,
    sum_us: u64,
)
    requires
        parseable(out),
        is_name(name),
        one_line(label),
    ensures
        goes_on(out, #[trigger] histogram(out, name, label, bounds, counts, count, sum_us)),
        has_histogram(
            histogram(out, name, label, bounds, counts, count, sum_us),
            name,
            label,
            bounds,
        ),
{
    reveal(histogram);
    assert(one_line("_bucket{"@) && one_line(","@) && one_line("le=\""@) && one_line(
        "+Inf\"}"@,
    ) && one_line("_sum"@) && one_line("_count"@) && one_line("{"@) && one_line("}"@) && one_line(
        Seq::<char>::empty(),
    )) by {
        reveal_strlit("_bucket{");
        reveal_strlit(",");
        reveal_strlit("le=\"");
        reveal_strlit("+Inf\"}");
        reveal_strlit("_sum");
        reveal_strlit("_count");
        reveal_strlit("{");
        reveal_strlit("}");
        reveal(one_line);
    }
    if label.len() > 0 {
        lemma_one_line_concat(label, ","@);
        lemma_one_line_concat("{"@, label);
        lemma_one_line_concat("{"@ + label, "}"@);
    }
    let first = label_first(label);
    let alone = label_alone(label);
    lemma_name_concat(name, "_bucket{"@);
    lemma_name_concat(name + "_bucket{"@, first);
    lemma_name_concat(name + "_bucket{"@ + first, "le=\""@);
    let prefix = name + "_bucket{"@ + first + "le=\""@;
    lemma_name_concat(prefix, "+Inf\"}"@);
    lemma_name_concat(name, "_sum"@);
    lemma_name_concat(name + "_sum"@, alone);
    lemma_name_concat(name, "_count"@);
    lemma_name_concat(name + "_count"@, alone);
    a_count_is_a_number(count as nat);
    a_fraction_is_a_number(sum_us as nat, 6);
    let rows = bucket_lines(out, prefix, bounds, counts, bounds.len());
    lemma_buckets(out, prefix, bounds, counts, bounds.len());
    a_sample_is_one_line(rows, prefix + "+Inf\"}"@, decimal(count as nat));
    let all = line(rows, prefix + "+Inf\"}"@, decimal(count as nat));
    let sum = name + "_sum"@ + alone;
    a_sample_is_one_line(all, sum, fixed_point(sum_us as nat, 6));
    let summed = line(all, sum, fixed_point(sum_us as nat, 6));
    let counted = name + "_count"@ + alone;
    a_sample_is_one_line(summed, counted, decimal(count as nat));
}

pub broadcast proof fn lemma_hold_rows(out: Seq<char>, hold: WriterHoldSnapshot, n: nat)
    requires
        parseable(out),
        n <= 12,
    ensures
        goes_on(out, #[trigger] hold_rows(out, hold, n)),
        forall|slot: int|
            0 <= slot < n ==> has_histogram(
                hold_rows(out, hold, n),
                "kimmy_write_lock_held_seconds"@,
                #[trigger] holder_label(slot),
                WRITER_HOLD_BUCKETS_US@,
            ),
    decreases n,
{
    if n > 0 {
        lemma_hold_rows(out, hold, (n - 1) as nat);
        lemma_holders(n - 1);
        assert(is_name("kimmy_write_lock_held_seconds"@) && one_line("holder=\""@) && one_line(
            "\""@,
        )) by {
            reveal_strlit("kimmy_write_lock_held_seconds");
            reveal_strlit("holder=\"");
            reveal_strlit("\"");
            reveal(is_name);
            reveal(one_line);
        }
        lemma_one_line_concat("holder=\""@, WRITER_HOLDERS@[n - 1]@);
        lemma_one_line_concat("holder=\""@ + WRITER_HOLDERS@[n - 1]@, "\""@);
        lemma_histogram(
            hold_rows(out, hold, (n - 1) as nat),
            "kimmy_write_lock_held_seconds"@,
            holder_label(n - 1),
            WRITER_HOLD_BUCKETS_US@,
            hold.buckets@[n - 1]@,
            hold.count@[n - 1],
            hold.sum_us@[n - 1],
        );
    }
}

/// A name with a holder's label.
pub proof fn lemma_holder_name(name: Seq<char>, slot: int, second: Seq<char>)
    requires
        is_name(name),
        0 <= slot < 12,
        one_line(second),
    ensures
        is_name(holder_name(name, slot, second)),
{
    let holder = WRITER_HOLDERS@[slot]@;
    assert(one_line("{holder=\""@) && one_line("\""@) && one_line("}"@)) by {
        reveal_strlit("{holder=\"");
        reveal_strlit("\"");
        reveal_strlit("}");
        reveal(one_line);
    }
    lemma_holders(slot);
    lemma_name_concat(name, "{holder=\""@);
    lemma_name_concat(name + "{holder=\""@, holder);
    lemma_name_concat(name + "{holder=\""@ + holder, "\""@);
    lemma_name_concat(name + "{holder=\""@ + holder + "\""@, second);
    lemma_name_concat(name + "{holder=\""@ + holder + "\""@ + second, "}"@);
}

pub proof fn lemma_then_label(key: Seq<char>, value: Seq<char>)
    requires
        one_line(key),
        one_line(value),
    ensures
        one_line(then_label(key, value)),
{
    assert(one_line(","@) && one_line("=\""@) && one_line("\""@)) by {
        reveal_strlit(",");
        reveal_strlit("=\"");
        reveal_strlit("\"");
        reveal(one_line);
    }
    lemma_one_line_concat(","@, key);
    lemma_one_line_concat(","@ + key, "=\""@);
    lemma_one_line_concat(","@ + key + "=\""@, value);
    lemma_one_line_concat(","@ + key + "=\""@ + value, "\""@);
}

/// One sample with a holder's label.
proof fn lemma_holder_sample(
    out: Seq<char>,
    name: Seq<char>,
    slot: int,
    second: Seq<char>,
    value: Seq<char>,
)
    requires
        parseable(out),
        is_name(name),
        0 <= slot < 12,
        one_line(second),
        is_number(value),
    ensures
        goes_on(out, line(out, holder_name(name, slot, second), value)),
        has_sample(
            line(out, holder_name(name, slot, second), value),
            holder_name(name, slot, second),
        ),
{
    lemma_holder_name(name, slot, second);
    a_sample_is_one_line(out, holder_name(name, slot, second), value);
}

/// Whether the samples of the first holders are there for each of these parts.
pub open spec fn has_parts(
    text: Seq<char>,
    name: Seq<char>,
    holders: nat,
    key: Seq<char>,
    parts: Seq<&'static str>,
) -> bool {
    forall|slot: int, part: int|
        0 <= slot < holders && 0 <= part < parts.len() ==> has_sample(
            text,
            #[trigger] holder_name(name, slot, then_label(key, parts[part]@)),
        )
}

/// Whether the samples of bytes read and written are there for the first holders.
pub open spec fn has_io(text: Seq<char>, holders: nat) -> bool {
    let name = "kimmy_write_lock_held_io_bytes_total"@;
    &&& forall|slot: int|
        0 <= slot < holders ==> has_sample(
            text,
            #[trigger] holder_name(name, slot, then_label("io"@, "read"@)),
        )
    &&& forall|slot: int|
        0 <= slot < holders ==> has_sample(
            text,
            #[trigger] holder_name(name, slot, then_label("io"@, "write"@)),
        )
}

proof fn lemma_part_rows(
    out: Seq<char>,
    name: Seq<char>,
    holder: int,
    key: Seq<char>,
    parts: Seq<&'static str>,
    ns: Seq<u64>,
    n: nat,
)
    requires
        parseable(out),
        is_name(name),
        0 <= holder < 12,
        one_line(key),
        n <= parts.len(),
        forall|i: int| 0 <= i < parts.len() ==> one_line(#[trigger] parts[i]@),
    ensures
        goes_on(out, part_rows(out, name, holder, key, parts, ns, n)),
        forall|part: int|
            0 <= part < n ==> has_sample(
                part_rows(out, name, holder, key, parts, ns, n),
                #[trigger] holder_name(name, holder, then_label(key, parts[part]@)),
            ),
    decreases n,
{
    if n > 0 {
        lemma_part_rows(out, name, holder, key, parts, ns, (n - 1) as nat);
        lemma_then_label(key, parts[n - 1]@);
        a_fraction_is_a_number(ns[n - 1] as nat, 9);
        lemma_holder_sample(
            part_rows(out, name, holder, key, parts, ns, (n - 1) as nat),
            name,
            holder,
            then_label(key, parts[n - 1]@),
            fixed_point(ns[n - 1] as nat, 9),
        );
    }
}

pub broadcast proof fn lemma_component_rows(out: Seq<char>, d: HoldDecomposition, n: nat)
    requires
        parseable(out),
        n <= 12,
    ensures
        goes_on(out, #[trigger] component_rows(out, d, n)),
        has_parts(
            component_rows(out, d, n),
            "kimmy_write_lock_held_component_seconds_total"@,
            n,
            "component"@,
            HOLD_COMPONENTS@,
        ),
    decreases n,
{
    if n > 0 {
        lemma_component_rows(out, d, (n - 1) as nat);
        assert(is_name("kimmy_write_lock_held_component_seconds_total"@) && one_line(
            "component"@,
        )) by {
            reveal_strlit("kimmy_write_lock_held_component_seconds_total");
            reveal_strlit("component");
            reveal(is_name);
            reveal(one_line);
        }
        assert forall|i: int| 0 <= i < 5 implies one_line(#[trigger] HOLD_COMPONENTS@[i]@) by {
            lemma_components(i);
        }
        lemma_part_rows(
            component_rows(out, d, (n - 1) as nat),
            "kimmy_write_lock_held_component_seconds_total"@,
            n - 1,
            "component"@,
            HOLD_COMPONENTS@,
            d.component_ns@[n - 1]@,
            5,
        );
    }
}

pub broadcast proof fn lemma_phase_rows(out: Seq<char>, d: HoldDecomposition, n: nat)
    requires
        parseable(out),
        n <= 12,
    ensures
        goes_on(out, #[trigger] phase_rows(out, d, n)),
        has_parts(
            phase_rows(out, d, n),
            "kimmy_write_lock_held_phase_seconds_total"@,
            n,
            "phase"@,
            HOLD_PHASES@,
        ),
    decreases n,
{
    if n > 0 {
        lemma_phase_rows(out, d, (n - 1) as nat);
        assert(is_name("kimmy_write_lock_held_phase_seconds_total"@) && one_line(
            "phase"@,
        )) by {
            reveal_strlit("kimmy_write_lock_held_phase_seconds_total");
            reveal_strlit("phase");
            reveal(is_name);
            reveal(one_line);
        }
        assert forall|i: int| 0 <= i < 3 implies one_line(#[trigger] HOLD_PHASES@[i]@) by {
            lemma_phases(i);
        }
        lemma_part_rows(
            phase_rows(out, d, (n - 1) as nat),
            "kimmy_write_lock_held_phase_seconds_total"@,
            n - 1,
            "phase"@,
            HOLD_PHASES@,
            d.phase_ns@[n - 1]@,
            3,
        );
    }
}

pub broadcast proof fn lemma_io_rows(out: Seq<char>, d: HoldDecomposition, n: nat)
    requires
        parseable(out),
        n <= 12,
    ensures
        goes_on(out, #[trigger] io_rows(out, d, n)),
        has_io(io_rows(out, d, n), n),
    decreases n,
{
    if n > 0 {
        let name = "kimmy_write_lock_held_io_bytes_total"@;
        let before = io_rows(out, d, (n - 1) as nat);
        lemma_io_rows(out, d, (n - 1) as nat);
        assert(is_name(name) && one_line("io"@) && one_line("read"@) && one_line("write"@)) by {
            reveal_strlit("kimmy_write_lock_held_io_bytes_total");
            reveal_strlit("io");
            reveal_strlit("read");
            reveal_strlit("write");
            reveal(is_name);
            reveal(one_line);
        }
        lemma_then_label("io"@, "read"@);
        lemma_then_label("io"@, "write"@);
        let read = decimal(d.read_bytes@[n - 1] as nat);
        let written = decimal(d.write_bytes@[n - 1] as nat);
        a_count_is_a_number(d.read_bytes@[n - 1] as nat);
        a_count_is_a_number(d.write_bytes@[n - 1] as nat);
        lemma_holder_sample(before, name, n - 1, then_label("io"@, "read"@), read);
        let between = line(
            before,
            holder_name(name, n - 1, then_label("io"@, "read"@)),
            read,
        );
        lemma_holder_sample(between, name, n - 1, then_label("io"@, "write"@), written);
    }
}

pub broadcast proof fn lemma_estimated_rows(out: Seq<char>, d: HoldDecomposition, n: nat)
    requires
        parseable(out),
        n <= 12,
    ensures
        goes_on(out, #[trigger] estimated_rows(out, d, n)),
        forall|slot: int|
            0 <= slot < n ==> has_sample(
                estimated_rows(out, d, n),
                #[trigger] holder_name(
                    "kimmy_write_lock_held_write_estimated_seconds_total"@,
                    slot,
                    ""@,
                ),
            ),
    decreases n,
{
    if n > 0 {
        let name = "kimmy_write_lock_held_write_estimated_seconds_total"@;
        lemma_estimated_rows(out, d, (n - 1) as nat);
        assert(is_name(name) && one_line(""@)) by {
            reveal_strlit("kimmy_write_lock_held_write_estimated_seconds_total");
            reveal_strlit("");
            reveal(is_name);
            reveal(one_line);
        }
        a_fraction_is_a_number(d.write_estimated_ns@[n - 1] as nat, 9);
        lemma_holder_sample(
            estimated_rows(out, d, (n - 1) as nat),
            name,
            n - 1,
            ""@,
            fixed_point(d.write_estimated_ns@[n - 1] as nat, 9),
        );
    }
}

pub broadcast proof fn lemma_overcounted_rows(out: Seq<char>, d: HoldDecomposition, n: nat)
    requires
        parseable(out),
        n <= 12,
    ensures
        goes_on(out, #[trigger] overcounted_rows(out, d, n)),
        forall|slot: int|
            0 <= slot < n ==> has_sample(
                overcounted_rows(out, d, n),
                #[trigger] holder_name(
                    "kimmy_write_lock_held_overcounted_total"@,
                    slot,
                    ""@,
                ),
            ),
    decreases n,
{
    if n > 0 {
        let name = "kimmy_write_lock_held_overcounted_total"@;
        lemma_overcounted_rows(out, d, (n - 1) as nat);
        assert(is_name(name) && one_line(""@)) by {
            reveal_strlit("kimmy_write_lock_held_overcounted_total");
            reveal_strlit("");
            reveal(is_name);
            reveal(one_line);
        }
        a_count_is_a_number(d.overcounted@[n - 1] as nat);
        lemma_holder_sample(
            overcounted_rows(out, d, (n - 1) as nat),
            name,
            n - 1,
            ""@,
            decimal(d.overcounted@[n - 1] as nat),
        );
    }
}

/// The name of a sample with one label, from what opens it.
pub open spec fn label_name(start: Seq<char>, label: Seq<char>) -> Seq<char> {
    start + label + "\"}"@
}

proof fn lemma_labelled_sample(out: Seq<char>, start: Seq<char>, label: Seq<char>, n: nat)
    requires
        parseable(out),
        is_name(start),
        one_line(label),
    ensures
        goes_on(out, line(out, label_name(start, label), decimal(n))),
        has_sample(
            line(out, label_name(start, label), decimal(n)),
            label_name(start, label),
        ),
{
    assert(one_line("\"}"@)) by {
        reveal_strlit("\"}");
        reveal(one_line);
    }
    lemma_name_concat(start, label);
    lemma_name_concat(start + label, "\"}"@);
    a_count_is_a_number(n);
    a_sample_is_one_line(out, label_name(start, label), decimal(n));
}

pub broadcast proof fn lemma_task_rows(out: Seq<char>, retries: Seq<u64>, n: nat)
    requires
        parseable(out),
        n <= 16,
    ensures
        goes_on(out, #[trigger] task_rows(out, retries, n)),
        forall|slot: int|
            0 <= slot < n ==> has_sample(
                task_rows(out, retries, n),
                label_name("kimmy_task_retries_total{task=\""@, (#[trigger] TASKS@[slot])@),
            ),
    decreases n,
{
    if n > 0 {
        lemma_task_rows(out, retries, (n - 1) as nat);
        lemma_tasks(n - 1);
        let start = "kimmy_task_retries_total{task=\""@;
        assert(is_name(start)) by {
            reveal_strlit("kimmy_task_retries_total{task=\"");
            reveal(is_name);
            reveal(one_line);
        }
        lemma_labelled_sample(
            task_rows(out, retries, (n - 1) as nat),
            start,
            TASKS@[n - 1]@,
            retries[n - 1] as nat,
        );
    }
}

pub broadcast proof fn lemma_confirmation_rows(out: Seq<char>, counts: Seq<u64>, n: nat)
    requires
        parseable(out),
        n <= 12,
    ensures
        goes_on(out, #[trigger] confirmation_rows(out, counts, n)),
        forall|slot: int|
            0 <= slot < n ==> has_sample(
                confirmation_rows(out, counts, n),
                label_name("kimmy_ddl_confirmations_total{outcome=\""@, (#[trigger] CONFIRM_OUTCOMES@[slot])@),
            ),
    decreases n,
{
    if n > 0 {
        lemma_confirmation_rows(out, counts, (n - 1) as nat);
        lemma_outcomes(n - 1);
        let start = "kimmy_ddl_confirmations_total{outcome=\""@;
        assert(is_name(start)) by {
            reveal_strlit("kimmy_ddl_confirmations_total{outcome=\"");
            reveal(is_name);
            reveal(one_line);
        }
        lemma_labelled_sample(
            confirmation_rows(out, counts, (n - 1) as nat),
            start,
            CONFIRM_OUTCOMES@[n - 1]@,
            counts[n - 1] as nat,
        );
    }
}

pub broadcast proof fn lemma_progress_rows(out: Seq<char>, ages: Seq<Option<u64>>, n: nat)
    requires
        parseable(out),
        n <= 5,
    ensures
        goes_on(out, #[trigger] progress_rows(out, ages, n)),
        forall|slot: int|
            0 <= slot < n && ages[slot] is Some ==> has_sample(
                progress_rows(out, ages, n),
                label_name(
                    "kimmy_task_progress_age_seconds{task=\""@,
                    (#[trigger] PROGRESS_WRITERS@[slot])@,
                ),
            ),
    decreases n,
{
    if n > 0 {
        lemma_progress_rows(out, ages, (n - 1) as nat);
        lemma_progress_writers(n - 1);
        let start = "kimmy_task_progress_age_seconds{task=\""@;
        assert(is_name(start)) by {
            reveal_strlit("kimmy_task_progress_age_seconds{task=\"");
            reveal(is_name);
            reveal(one_line);
        }
        if let Some(age) = ages[n - 1] {
            lemma_labelled_sample(
                progress_rows(out, ages, (n - 1) as nat),
                start,
                PROGRESS_WRITERS@[n - 1]@,
                age as nat,
            );
        }
    }
}

} // verus!
