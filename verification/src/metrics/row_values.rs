//! The values of the rows that come one for each label: each stands behind its own
//! name.

use vstd::prelude::*;
use vstd::string::*;

use super::lines::{
    a_count_is_a_number, a_fraction_is_a_number, a_sample_is_one_line, goes_on, is_name, is_number,
    lemma_name_concat, lemma_number_is_one_line, lemma_one_line_concat, one_line, parseable, shows,
};
use super::page::{
    bucket_lines, component_rows, confirmation_rows, cumulative, estimated_rows, histogram,
    hold_rows, holder_label, holder_name, io_rows, label_alone, label_first, line,
    overcounted_rows, part_rows, phase_rows, progress_rows, task_rows, then_label,
};
use super::rows::{
    bucket_name, bucket_prefix, label_name, lemma_components, lemma_holder_name, lemma_holders,
    lemma_outcomes, lemma_phases, lemma_progress_writers, lemma_tasks, lemma_then_label,
};
use super::{
    HoldDecomposition, WriterHoldSnapshot, CONFIRM_OUTCOMES, HOLD_COMPONENTS, HOLD_PHASES,
    PROGRESS_WRITERS, TASKS, WRITER_HOLDERS, WRITER_HOLD_BUCKETS_US,
};
use crate::text::{decimal, fixed_point};

verus! {

/// Whether a sample stands there with this value.
pub open spec fn has_value(text: Seq<char>, name: Seq<char>, value: Seq<char>) -> bool {
    shows(text, name + " "@ + value)
}

/// Whether a histogram stands there with these counts: behind each bound the
/// observations up to it, behind the last bucket and the count all of them, and
/// their sum in seconds.
pub open spec fn has_histogram_of(
    text: Seq<char>,
    name: Seq<char>,
    label: Seq<char>,
    bounds: Seq<u64>,
    counts: Seq<u64>,
    count: u64,
    sum_us: u64,
) -> bool {
    &&& forall|i: int|
        0 <= i < bounds.len() ==> has_value(
            text,
            bucket_name(bucket_prefix(name, label), #[trigger] bounds[i]),
            decimal(cumulative(counts, (i + 1) as nat) as nat),
        )
    &&& has_value(text, bucket_prefix(name, label) + "+Inf\"}"@, decimal(count as nat))
    &&& has_value(
        text,
        name + "_sum"@ + label_alone(label),
        fixed_point(sum_us as nat, 6),
    )
    &&& has_value(text, name + "_count"@ + label_alone(label), decimal(count as nat))
}

proof fn lemma_bucket_values(
    out: Seq<char>,
    prefix: Seq<char>,
    bounds: Seq<u64>,
    counts: Seq<u64>,
    n: nat,
)
    requires
        parseable(out),
        is_name(prefix),
    ensures
        goes_on(out, bucket_lines(out, prefix, bounds, counts, n)),
        forall|i: int|
            0 <= i < n ==> has_value(
                bucket_lines(out, prefix, bounds, counts, n),
                bucket_name(prefix, #[trigger] bounds[i]),
                decimal(cumulative(counts, (i + 1) as nat) as nat),
            ),
    decreases n,
{
    if n > 0 {
        lemma_bucket_values(out, prefix, bounds, counts, (n - 1) as nat);
        let bound = fixed_point(bounds[n - 1] as nat, 6);
        a_fraction_is_a_number(bounds[n - 1] as nat, 6);
        lemma_number_is_one_line(bound);
        lemma_name_concat(prefix, bound);
        assert(one_line("\"}"@)) by {
            reveal_strlit("\"}");
            reveal(one_line);
        }
        lemma_name_concat(prefix + bound, "\"}"@);
        a_count_is_a_number(cumulative(counts, n) as nat);
        a_sample_is_one_line(
            bucket_lines(out, prefix, bounds, counts, (n - 1) as nat),
            prefix + bound + "\"}"@,
            decimal(cumulative(counts, n) as nat),
        );
    }
}

pub broadcast proof fn lemma_histogram_values(
    out: Seq<char>,
    name: Seq<char>,
    label: Seq<char>,
    bounds: Seq<u64>,
    counts: Seq<u64>,
    count: u64,
    sum_us: u64,
)
    requires
        parseable(out),
        is_name(name),
        one_line(label),
    ensures
        goes_on(out, #[trigger] histogram(out, name, label, bounds, counts, count, sum_us)),
        has_histogram_of(
            histogram(out, name, label, bounds, counts, count, sum_us),
            name,
            label,
            bounds,
            counts,
            count,
            sum_us,
        ),
{
    reveal(histogram);
    assert(one_line("_bucket{"@) && one_line(","@) && one_line("le=\""@) && one_line(
        "+Inf\"}"@,
    ) && one_line("_sum"@) && one_line("_count"@) && one_line("{"@) && one_line("}"@) && one_line(
        Seq::<char>::empty(),
    )) by {
        reveal_strlit("_bucket{");
        reveal_strlit(",");
        reveal_strlit("le=\"");
        reveal_strlit("+Inf\"}");
        reveal_strlit("_sum");
        reveal_strlit("_count");
        reveal_strlit("{");
        reveal_strlit("}");
        reveal(one_line);
    }
    if label.len() > 0 {
        lemma_one_line_concat(label, ","@);
        lemma_one_line_concat("{"@, label);
        lemma_one_line_concat("{"@ + label, "}"@);
    }
    let first = label_first(label);
    let alone = label_alone(label);
    lemma_name_concat(name, "_bucket{"@);
    lemma_name_concat(name + "_bucket{"@, first);
    lemma_name_concat(name + "_bucket{"@ + first, "le=\""@);
    let prefix = name + "_bucket{"@ + first + "le=\""@;
    lemma_name_concat(prefix, "+Inf\"}"@);
    lemma_name_concat(name, "_sum"@);
    lemma_name_concat(name + "_sum"@, alone);
    lemma_name_concat(name, "_count"@);
    lemma_name_concat(name + "_count"@, alone);
    a_count_is_a_number(count as nat);
    a_fraction_is_a_number(sum_us as nat, 6);
    let rows = bucket_lines(out, prefix, bounds, counts, bounds.len());
    lemma_bucket_values(out, prefix, bounds, counts, bounds.len());
    a_sample_is_one_line(rows, prefix + "+Inf\"}"@, decimal(count as nat));
    let all = line(rows, prefix + "+Inf\"}"@, decimal(count as nat));
    let sum = name + "_sum"@ + alone;
    a_sample_is_one_line(all, sum, fixed_point(sum_us as nat, 6));
    let summed = line(all, sum, fixed_point(sum_us as nat, 6));
    let counted = name + "_count"@ + alone;
    a_sample_is_one_line(summed, counted, decimal(count as nat));
}

/// Whether the times the first holders held the writer stand there.
pub open spec fn has_holds(text: Seq<char>, hold: WriterHoldSnapshot, holders: nat) -> bool {
    forall|slot: int|
        0 <= slot < holders ==> has_histogram_of(
            text,
            "kimmy_write_lock_held_seconds"@,
            #[trigger] holder_label(slot),
            WRITER_HOLD_BUCKETS_US@,
            hold.buckets@[slot]@,
            hold.count@[slot],
            hold.sum_us@[slot],
        )
}

pub broadcast proof fn lemma_hold_values(out: Seq<char>, hold: WriterHoldSnapshot, n: nat)
    requires
        parseable(out),
        n <= 12,
    ensures
        goes_on(out, #[trigger] hold_rows(out, hold, n)),
        has_holds(hold_rows(out, hold, n), hold, n),
    decreases n,
{
    if n > 0 {
        lemma_hold_values(out, hold, (n - 1) as nat);
        lemma_holders(n - 1);
        assert(is_name("kimmy_write_lock_held_seconds"@) && one_line("holder=\""@) && one_line(
            "\""@,
        )) by {
            reveal_strlit("kimmy_write_lock_held_seconds");
            reveal_strlit("holder=\"");
            reveal_strlit("\"");
            reveal(is_name);
            reveal(one_line);
        }
        lemma_one_line_concat("holder=\""@, WRITER_HOLDERS@[n - 1]@);
        lemma_one_line_concat("holder=\""@ + WRITER_HOLDERS@[n - 1]@, "\""@);
        lemma_histogram_values(
            hold_rows(out, hold, (n - 1) as nat),
            "kimmy_write_lock_held_seconds"@,
            holder_label(n - 1),
            WRITER_HOLD_BUCKETS_US@,
            hold.buckets@[n - 1]@,
            hold.count@[n - 1],
            hold.sum_us@[n - 1],
        );
    }
}

proof fn lemma_holder_value(
    out: Seq<char>,
    name: Seq<char>,
    slot: int,
    second: Seq<char>,
    value: Seq<char>,
)
    requires
        parseable(out),
        is_name(name),
        0 <= slot < 12,
        one_line(second),
        is_number(value),
    ensures
        goes_on(out, line(out, holder_name(name, slot, second), value)),
        has_value(
            line(out, holder_name(name, slot, second), value),
            holder_name(name, slot, second),
            value,
        ),
{
    lemma_holder_name(name, slot, second);
    a_sample_is_one_line(out, holder_name(name, slot, second), value);
}

proof fn lemma_part_values(
    out: Seq<char>,
    name: Seq<char>,
    holder: int,
    key: Seq<char>,
    parts: Seq<&'static str>,
    ns: Seq<u64>,
    n: nat,
)
    requires
        parseable(out),
        is_name(name),
        0 <= holder < 12,
        one_line(key),
        n <= parts.len(),
        forall|i: int| 0 <= i < parts.len() ==> one_line(#[trigger] parts[i]@),
    ensures
        goes_on(out, part_rows(out, name, holder, key, parts, ns, n)),
        forall|part: int|
            0 <= part < n ==> has_value(
                part_rows(out, name, holder, key, parts, ns, n),
                #[trigger] holder_name(name, holder, then_label(key, parts[part]@)),
                fixed_point(ns[part] as nat, 9),
            ),
    decreases n,
{
    if n > 0 {
        lemma_part_values(out, name, holder, key, parts, ns, (n - 1) as nat);
        lemma_then_label(key, parts[n - 1]@);
        a_fraction_is_a_number(ns[n - 1] as nat, 9);
        lemma_holder_value(
            part_rows(out, name, holder, key, parts, ns, (n - 1) as nat),
            name,
            holder,
            then_label(key, parts[n - 1]@),
            fixed_point(ns[n - 1] as nat, 9),
        );
    }
}

/// Whether what the first holders spent their holds on stands there, in seconds.
pub open spec fn has_components(text: Seq<char>, d: HoldDecomposition, holders: nat) -> bool {
    forall|slot: int, part: int|
        0 <= slot < holders && 0 <= part < 5 ==> has_value(
            text,
            #[trigger] holder_name(
                "kimmy_write_lock_held_component_seconds_total"@,
                slot,
                then_label("component"@, HOLD_COMPONENTS@[part]@),
            ),
            fixed_point(d.component_ns@[slot]@[part] as nat, 9),
        )
}

pub broadcast proof fn lemma_component_values(out: Seq<char>, d: HoldDecomposition, n: nat)
    requires
        parseable(out),
        n <= 12,
    ensures
        goes_on(out, #[trigger] component_rows(out, d, n)),
        has_components(component_rows(out, d, n), d, n),
    decreases n,
{
    if n > 0 {
        lemma_component_values(out, d, (n - 1) as nat);
        assert(is_name("kimmy_write_lock_held_component_seconds_total"@) && one_line(
            "component"@,
        )) by {
            reveal_strlit("kimmy_write_lock_held_component_seconds_total");
            reveal_strlit("component");
            reveal(is_name);
            reveal(one_line);
        }
        assert forall|i: int| 0 <= i < 5 implies one_line(#[trigger] HOLD_COMPONENTS@[i]@) by {
            lemma_components(i);
        }
        lemma_part_values(
            component_rows(out, d, (n - 1) as nat),
            "kimmy_write_lock_held_component_seconds_total"@,
            n - 1,
            "component"@,
            HOLD_COMPONENTS@,
            d.component_ns@[n - 1]@,
            5,
        );
    }
}

/// Whether where the first holders were in their transactions stands there, in
/// seconds.
pub open spec fn has_phases(text: Seq<char>, d: HoldDecomposition, holders: nat) -> bool {
    forall|slot: int, part: int|
        0 <= slot < holders && 0 <= part < 3 ==> has_value(
            text,
            #[trigger] holder_name(
                "kimmy_write_lock_held_phase_seconds_total"@,
                slot,
                then_label("phase"@, HOLD_PHASES@[part]@),
            ),
            fixed_point(d.phase_ns@[slot]@[part] as nat, 9),
        )
}

pub broadcast proof fn lemma_phase_values(out: Seq<char>, d: HoldDecomposition, n: nat)
    requires
        parseable(out),
        n <= 12,
    ensures
        goes_on(out, #[trigger] phase_rows(out, d, n)),
        has_phases(phase_rows(out, d, n), d, n),
    decreases n,
{
    if n > 0 {
        lemma_phase_values(out, d, (n - 1) as nat);
        assert(is_name("kimmy_write_lock_held_phase_seconds_total"@) && one_line("phase"@)) by {
            reveal_strlit("kimmy_write_lock_held_phase_seconds_total");
            reveal_strlit("phase");
            reveal(is_name);
            reveal(one_line);
        }
        assert forall|i: int| 0 <= i < 3 implies one_line(#[trigger] HOLD_PHASES@[i]@) by {
            lemma_phases(i);
        }
        lemma_part_values(
            phase_rows(out, d, (n - 1) as nat),
            "kimmy_write_lock_held_phase_seconds_total"@,
            n - 1,
            "phase"@,
            HOLD_PHASES@,
            d.phase_ns@[n - 1]@,
            3,
        );
    }
}

/// Whether the bytes the first holders read and wrote stand there.
pub open spec fn has_io_of(text: Seq<char>, d: HoldDecomposition, holders: nat) -> bool {
    let name = "kimmy_write_lock_held_io_bytes_total"@;
    &&& forall|slot: int|
        0 <= slot < holders ==> has_value(
            text,
            #[trigger] holder_name(name, slot, then_label("io"@, "read"@)),
            decimal(d.read_bytes@[slot] as nat),
        )
    &&& forall|slot: int|
        0 <= slot < holders ==> has_value(
            text,
            #[trigger] holder_name(name, slot, then_label("io"@, "write"@)),
            decimal(d.write_bytes@[slot] as nat),
        )
}

pub broadcast proof fn lemma_io_values(out: Seq<char>, d: HoldDecomposition, n: nat)
    requires
        parseable(out),
        n <= 12,
    ensures
        goes_on(out, #[trigger] io_rows(out, d, n)),
        has_io_of(io_rows(out, d, n), d, n),
    decreases n,
{
    if n > 0 {
        let name = "kimmy_write_lock_held_io_bytes_total"@;
        let before = io_rows(out, d, (n - 1) as nat);
        lemma_io_values(out, d, (n - 1) as nat);
        assert(is_name(name) && one_line("io"@) && one_line("read"@) && one_line("write"@)) by {
            reveal_strlit("kimmy_write_lock_held_io_bytes_total");
            reveal_strlit("io");
            reveal_strlit("read");
            reveal_strlit("write");
            reveal(is_name);
            reveal(one_line);
        }
        lemma_then_label("io"@, "read"@);
        lemma_then_label("io"@, "write"@);
        let read = decimal(d.read_bytes@[n - 1] as nat);
        let written = decimal(d.write_bytes@[n - 1] as nat);
        a_count_is_a_number(d.read_bytes@[n - 1] as nat);
        a_count_is_a_number(d.write_bytes@[n - 1] as nat);
        lemma_holder_value(before, name, n - 1, then_label("io"@, "read"@), read);
        let between = line(before, holder_name(name, n - 1, then_label("io"@, "read"@)), read);
        lemma_holder_value(between, name, n - 1, then_label("io"@, "write"@), written);
    }
}

/// Whether the estimates of the first holders stand there, in seconds.
pub open spec fn has_estimates(text: Seq<char>, d: HoldDecomposition, holders: nat) -> bool {
    forall|slot: int|
        0 <= slot < holders ==> has_value(
            text,
            #[trigger] holder_name(
                "kimmy_write_lock_held_write_estimated_seconds_total"@,
                slot,
                ""@,
            ),
            fixed_point(d.write_estimated_ns@[slot] as nat, 9),
        )
}

pub broadcast proof fn lemma_estimated_values(out: Seq<char>, d: HoldDecomposition, n: nat)
    requires
        parseable(out),
        n <= 12,
    ensures
        goes_on(out, #[trigger] estimated_rows(out, d, n)),
        has_estimates(estimated_rows(out, d, n), d, n),
    decreases n,
{
    if n > 0 {
        let name = "kimmy_write_lock_held_write_estimated_seconds_total"@;
        lemma_estimated_values(out, d, (n - 1) as nat);
        assert(is_name(name) && one_line(""@)) by {
            reveal_strlit("kimmy_write_lock_held_write_estimated_seconds_total");
            reveal_strlit("");
            reveal(is_name);
            reveal(one_line);
        }
        a_fraction_is_a_number(d.write_estimated_ns@[n - 1] as nat, 9);
        lemma_holder_value(
            estimated_rows(out, d, (n - 1) as nat),
            name,
            n - 1,
            ""@,
            fixed_point(d.write_estimated_ns@[n - 1] as nat, 9),
        );
    }
}

/// Whether the overcounts of the first holders stand there.
pub open spec fn has_overcounts(text: Seq<char>, d: HoldDecomposition, holders: nat) -> bool {
    forall|slot: int|
        0 <= slot < holders ==> has_value(
            text,
            #[trigger] holder_name("kimmy_write_lock_held_overcounted_total"@, slot, ""@),
            decimal(d.overcounted@[slot] as nat),
        )
}

pub broadcast proof fn lemma_overcounted_values(out: Seq<char>, d: HoldDecomposition, n: nat)
    requires
        parseable(out),
        n <= 12,
    ensures
        goes_on(out, #[trigger] overcounted_rows(out, d, n)),
        has_overcounts(overcounted_rows(out, d, n), d, n),
    decreases n,
{
    if n > 0 {
        let name = "kimmy_write_lock_held_overcounted_total"@;
        lemma_overcounted_values(out, d, (n - 1) as nat);
        assert(is_name(name) && one_line(""@)) by {
            reveal_strlit("kimmy_write_lock_held_overcounted_total");
            reveal_strlit("");
            reveal(is_name);
            reveal(one_line);
        }
        a_count_is_a_number(d.overcounted@[n - 1] as nat);
        lemma_holder_value(
            overcounted_rows(out, d, (n - 1) as nat),
            name,
            n - 1,
            ""@,
            decimal(d.overcounted@[n - 1] as nat),
        );
    }
}

proof fn lemma_labelled_value(out: Seq<char>, start: Seq<char>, label: Seq<char>, n: nat)
    requires
        parseable(out),
        is_name(start),
        one_line(label),
    ensures
        goes_on(out, line(out, label_name(start, label), decimal(n))),
        has_value(
            line(out, label_name(start, label), decimal(n)),
            label_name(start, label),
            decimal(n),
        ),
{
    assert(one_line("\"}"@)) by {
        reveal_strlit("\"}");
        reveal(one_line);
    }
    lemma_name_concat(start, label);
    lemma_name_concat(start + label, "\"}"@);
    a_count_is_a_number(n);
    a_sample_is_one_line(out, label_name(start, label), decimal(n));
}

/// Whether the retries of the first tasks stand there.
pub open spec fn has_retries(text: Seq<char>, retries: Seq<u64>, tasks: nat) -> bool {
    forall|slot: int|
        0 <= slot < tasks ==> has_value(
            text,
            label_name("kimmy_task_retries_total{task=\""@, (#[trigger] TASKS@[slot])@),
            decimal(retries[slot] as nat),
        )
}

pub broadcast proof fn lemma_task_values(out: Seq<char>, retries: Seq<u64>, n: nat)
    requires
        parseable(out),
        n <= 16,
    ensures
        goes_on(out, #[trigger] task_rows(out, retries, n)),
        has_retries(task_rows(out, retries, n), retries, n),
    decreases n,
{
    if n > 0 {
        lemma_task_values(out, retries, (n - 1) as nat);
        lemma_tasks(n - 1);
        let start = "kimmy_task_retries_total{task=\""@;
        assert(is_name(start)) by {
            reveal_strlit("kimmy_task_retries_total{task=\"");
            reveal(is_name);
            reveal(one_line);
        }
        lemma_labelled_value(
            task_rows(out, retries, (n - 1) as nat),
            start,
            TASKS@[n - 1]@,
            retries[n - 1] as nat,
        );
    }
}

/// Whether the confirmations of the first outcomes stand there.
pub open spec fn has_confirmations(text: Seq<char>, counts: Seq<u64>, outcomes: nat) -> bool {
    forall|slot: int|
        0 <= slot < outcomes ==> has_value(
            text,
            label_name(
                "kimmy_ddl_confirmations_total{outcome=\""@,
                (#[trigger] CONFIRM_OUTCOMES@[slot])@,
            ),
            decimal(counts[slot] as nat),
        )
}

pub broadcast proof fn lemma_outcome_values(out: Seq<char>, counts: Seq<u64>, n: nat)
    requires
        parseable(out),
        n <= 12,
    ensures
        goes_on(out, #[trigger] confirmation_rows(out, counts, n)),
        has_confirmations(confirmation_rows(out, counts, n), counts, n),
    decreases n,
{
    if n > 0 {
        lemma_outcome_values(out, counts, (n - 1) as nat);
        lemma_outcomes(n - 1);
        let start = "kimmy_ddl_confirmations_total{outcome=\""@;
        assert(is_name(start)) by {
            reveal_strlit("kimmy_ddl_confirmations_total{outcome=\"");
            reveal(is_name);
            reveal(one_line);
        }
        lemma_labelled_value(
            confirmation_rows(out, counts, (n - 1) as nat),
            start,
            CONFIRM_OUTCOMES@[n - 1]@,
            counts[n - 1] as nat,
        );
    }
}

/// Whether the ages of the first background writers stand there, of those that run.
pub open spec fn has_ages(text: Seq<char>, ages: Seq<Option<u64>>, writers: nat) -> bool {
    forall|slot: int|
        0 <= slot < writers && ages[slot] is Some ==> has_value(
            text,
            label_name(
                "kimmy_task_progress_age_seconds{task=\""@,
                (#[trigger] PROGRESS_WRITERS@[slot])@,
            ),
            decimal(ages[slot]->0 as nat),
        )
}

pub broadcast proof fn lemma_progress_values(out: Seq<char>, ages: Seq<Option<u64>>, n: nat)
    requires
        parseable(out),
        n <= 5,
    ensures
        goes_on(out, #[trigger] progress_rows(out, ages, n)),
        has_ages(progress_rows(out, ages, n), ages, n),
    decreases n,
{
    if n > 0 {
        lemma_progress_values(out, ages, (n - 1) as nat);
        lemma_progress_writers(n - 1);
        let start = "kimmy_task_progress_age_seconds{task=\""@;
        assert(is_name(start)) by {
            reveal_strlit("kimmy_task_progress_age_seconds{task=\"");
            reveal(is_name);
            reveal(one_line);
        }
        if let Some(age) = ages[n - 1] {
            lemma_labelled_value(
                progress_rows(out, ages, (n - 1) as nat),
                start,
                PROGRESS_WRITERS@[n - 1]@,
                age as nat,
            );
        }
    }
}

} // verus!
