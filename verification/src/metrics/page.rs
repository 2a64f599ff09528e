//! The `/metrics` page, in the Prometheus text format.
//!
//! No series is conditional, but for the progress age of a background writer
//! this node does not run: a counter that only appears after its first event
//! makes a dashboard show "no data" instead of "nothing has gone wrong yet".
//!
//! A number of seconds is written exactly, from the whole microseconds or
//! nanoseconds it is held in.

use vstd::prelude::*;
use vstd::string::*;

use super::help;
use super::lines::parseable;
use super::series::{every_line_is_a_comment_or_a_sample, every_series_is_there, has_every_series};
use super::values::{every_value_stands_behind_its_name, shows_every_value};
use super::{
    HoldDecomposition, LiveReadings, Metrics, MetricsSnapshot, PullReport, ServeSnapshot,
    StorageReadings, WriterHoldSnapshot, WriterWaitSnapshot, BACKUP_BUCKETS_US, CONFIRM_OUTCOMES,
    ENTRY_WAIT_BUCKETS_US, HOLD_COMPONENTS, HOLD_PHASES, LATENCY_BUCKETS_US, PROGRESS_WRITERS,
    PULL_BUCKETS_US, SERVE_WALK_BUCKETS_US, TASKS, WRITER_HOLDERS, WRITER_HOLD_BUCKETS_US,
    WRITER_WAIT_BUCKETS_US,
};
use crate::text::{decimal, fixed_point, push_decimal, push_fixed_point};

verus! {

/// The page so far, then a series' HELP and TYPE lines.
#[verifier::opaque]
pub open spec fn header(
    out: Seq<char>,
    name: Seq<char>,
    help: Seq<char>,
    kind: Seq<char>,
) -> Seq<char> {
    out + "# HELP "@ + name + " "@ + help + "\n# TYPE "@ + name + " "@ + kind + "\n"@
}

/// The page so far, then one sample: its name with its labels, and its value.
#[verifier::opaque]
pub open spec fn line(out: Seq<char>, name: Seq<char>, value: Seq<char>) -> Seq<char> {
    out + name + " "@ + value + "\n"@
}

fn push_header(out: &mut String, name: &str, help: &str, kind: &str)
    ensures
        final(out)@ == header(old(out)@, name@, help@, kind@),
{
    reveal(header);
    out.append("# HELP ");
    out.append(name);
    out.append(" ");
    out.append(help);
    out.append("\n# TYPE ");
    out.append(name);
    out.append(" ");
    out.append(kind);
    out.append("\n");
}

/// A sample that is a whole number.
fn push_count(out: &mut String, name: &str, n: u64)
    ensures
        final(out)@ == line(old(out)@, name@, decimal(n as nat)),
{
    reveal(line);
    out.append(name);
    out.append(" ");
    push_decimal(out, n);
    out.append("\n");
}

/// A sample that is `n / 10^places`.
fn push_fraction(out: &mut String, name: &str, n: u64, places: u32)
    requires
        places <= 9,
    ensures
        final(out)@ == line(old(out)@, name@, fixed_point(n as nat, places as nat)),
{
    reveal(line);
    out.append(name);
    out.append(" ");
    push_fixed_point(out, n, places);
    out.append("\n");
}

/// The observations in the first `n` buckets.
pub open spec fn cumulative(counts: Seq<u64>, n: nat) -> u64
    decreases n,
{
    if n == 0 {
        0
    } else {
        cumulative(counts, (n - 1) as nat).wrapping_add(counts[n - 1])
    }
}

/// The page so far, then a histogram's first `n` buckets, each with every
/// observation up to its bound, in seconds.
pub open spec fn bucket_lines(
    out: Seq<char>,
    prefix: Seq<char>,
    bounds: Seq<u64>,
    counts: Seq<u64>,
    n: nat,
) -> Seq<char>
    decreases n,
{
    if n == 0 {
        out
    } else {
        line(
            bucket_lines(out, prefix, bounds, counts, (n - 1) as nat),
            prefix + fixed_point(bounds[n - 1] as nat, 6) + "\"}"@,
            decimal(cumulative(counts, n) as nat),
        )
    }
}

/// A label in front of another.
pub open spec fn label_first(label: Seq<char>) -> Seq<char> {
    if label.len() == 0 {
        Seq::empty()
    } else {
        label + ","@
    }
}

/// A label on its own.
pub open spec fn label_alone(label: Seq<char>) -> Seq<char> {
    if label.len() == 0 {
        Seq::empty()
    } else {
        "{"@ + label + "}"@
    }
}

/// The page so far, then a histogram: its buckets, all observations under
/// `+Inf`, their sum in seconds and their count.
#[verifier::opaque]
pub open spec fn histogram(
    out: Seq<char>,
    name: Seq<char>,
    label: Seq<char>,
    bounds: Seq<u64>,
    counts: Seq<u64>,
    count: u64,
    sum_us: u64,
) -> Seq<char> {
    let prefix = name + "_bucket{"@ + label_first(label) + "le=\""@;
    let out = bucket_lines(out, prefix, bounds, counts, bounds.len());
    let out = line(out, prefix + "+Inf\"}"@, decimal(count as nat));
    let out = line(
        out,
        name + "_sum"@ + label_alone(label),
        fixed_point(sum_us as nat, 6),
    );
    line(out, name + "_count"@ + label_alone(label), decimal(count as nat))
}

fn push_histogram(
    out: &mut String,
    name: &str,
    label: &str,
    bounds: &[u64],
    counts: &[u64],
    count: u64,
    sum_us: u64,
)
    requires
        bounds@.len() == counts@.len(),
    ensures
        final(out)@ == histogram(
            old(out)@,
            name@,
            label@,
            bounds@,
            counts@,
            count,
            sum_us,
        ),
{
    reveal(histogram);
    let mut prefix = name.to_owned();
    prefix.append("_bucket{");
    let mut alone = String::new();
    if label.unicode_len() > 0 {
        let mut first = label.to_owned();
        first.append(",");
        prefix.append(first.as_str());
        alone.append("{");
        alone.append(label);
        alone.append("}");
        assert(alone@ =~= label_alone(label@));
    } else {
        assert(prefix@ =~= prefix@ + label_first(label@));
        assert(alone@ =~= label_alone(label@));
    }
    prefix.append("le=\"");
    let ghost start = out@;
    let mut total: u64 = 0;
    let mut i: usize = 0;
    while i < bounds.len()
        invariant
            i <= bounds.len(),
            bounds@.len() == counts@.len(),
            total == cumulative(counts@, i as nat),
            out@ == bucket_lines(start, prefix@, bounds@, counts@, i as nat),
        decreases bounds.len() - i,
    {
        total = total.wrapping_add(counts[i]);
        let mut bucket = prefix.clone();
        push_fixed_point(&mut bucket, bounds[i], 6);
        bucket.append("\"}");
        push_count(out, bucket.as_str(), total);
        i = i + 1;
    }
    let mut all = prefix.clone();
    all.append("+Inf\"}");
    push_count(out, all.as_str(), count);
    let mut sum = name.to_owned();
    sum.append("_sum");
    sum.append(alone.as_str());
    push_fraction(out, sum.as_str(), sum_us, 6);
    let mut observations = name.to_owned();
    observations.append("_count");
    observations.append(alone.as_str());
    push_count(out, observations.as_str(), count);
}

/// How long transactions waited for the storage writer.
#[verifier::opaque]
pub open spec fn writer_wait(out: Seq<char>, wait: WriterWaitSnapshot) -> Seq<char> {
    let out = header(
        out,
        "kimmy_write_lock_wait_seconds"@,
        help::H_WRITE_LOCK_WAIT_SECONDS@,
        "histogram"@,
    );
    histogram(
        out,
        "kimmy_write_lock_wait_seconds"@,
        ""@,
        WRITER_WAIT_BUCKETS_US@,
        wait.buckets@,
        wait.count,
        wait.sum_us,
    )
}

/// The writer-wait histogram.
fn render_writer_wait(out: &mut String, wait: &WriterWaitSnapshot)
    ensures
        final(out)@ == writer_wait(old(out)@, *wait),
{
    reveal(writer_wait);
    push_header(
        out,
        "kimmy_write_lock_wait_seconds",
        help::H_WRITE_LOCK_WAIT_SECONDS,
        "histogram",
    );
    push_histogram(
        out,
        "kimmy_write_lock_wait_seconds",
        "",
        &WRITER_WAIT_BUCKETS_US,
        &wait.buckets,
        wait.count,
        wait.sum_us,
    );
}

/// The label of the holder in `slot`.
pub open spec fn holder_label(slot: int) -> Seq<char> {
    "holder=\""@ + WRITER_HOLDERS@[slot]@ + "\""@
}

/// The first `n` holders' histograms. Every holder is on the page whether or
/// not it has held the writer yet.
pub open spec fn hold_rows(out: Seq<char>, hold: WriterHoldSnapshot, n: nat) -> Seq<char>
    decreases n,
{
    if n == 0 {
        out
    } else {
        histogram(
            hold_rows(out, hold, (n - 1) as nat),
            "kimmy_write_lock_held_seconds"@,
            holder_label(n - 1),
            WRITER_HOLD_BUCKETS_US@,
            hold.buckets@[n - 1]@,
            hold.count@[n - 1],
            hold.sum_us@[n - 1],
        )
    }
}

/// How long the storage writer was held, by holder.
#[verifier::opaque]
pub open spec fn writer_hold(out: Seq<char>, hold: WriterHoldSnapshot) -> Seq<char> {
    hold_rows(
        header(
            out,
            "kimmy_write_lock_held_seconds"@,
            help::H_WRITE_LOCK_HELD_SECONDS@,
            "histogram"@,
        ),
        hold,
        12,
    )
}

/// The writer-hold histogram, one row per holder.
fn render_writer_hold(out: &mut String, hold: &WriterHoldSnapshot)
    ensures
        final(out)@ == writer_hold(old(out)@, *hold),
{
    reveal(writer_hold);
    push_header(
        out,
        "kimmy_write_lock_held_seconds",
        help::H_WRITE_LOCK_HELD_SECONDS,
        "histogram",
    );
    let ghost start = out@;
    let mut i: usize = 0;
    while i < 12
        invariant
            i <= 12,
            out@ == hold_rows(start, *hold, i as nat),
        decreases 12 - i,
    {
        let mut label = "holder=\"".to_owned();
        label.append(WRITER_HOLDERS[i]);
        label.append("\"");
        push_histogram(
            out,
            "kimmy_write_lock_held_seconds",
            label.as_str(),
            &WRITER_HOLD_BUCKETS_US,
            &hold.buckets[i],
            hold.count[i],
            hold.sum_us[i],
        );
        i = i + 1;
    }
}

/// A sample's name with a holder label and, in its place, a second label.
pub open spec fn holder_name(name: Seq<char>, slot: int, second: Seq<char>) -> Seq<char> {
    name + "{holder=\""@ + WRITER_HOLDERS@[slot]@ + "\""@ + second + "}"@
}

fn holder_name_text(name: &str, slot: usize, second: &str) -> (s: String)
    requires
        slot < 12,
    ensures
        s@ == holder_name(name@, slot as int, second@),
{
    let mut s = name.to_owned();
    s.append("{holder=\"");
    s.append(WRITER_HOLDERS[slot]);
    s.append("\"");
    s.append(second);
    s.append("}");
    s
}

/// A label after another.
pub open spec fn then_label(key: Seq<char>, value: Seq<char>) -> Seq<char> {
    ","@ + key + "=\""@ + value + "\""@
}

fn then_label_text(key: &str, value: &str) -> (s: String)
    ensures
        s@ == then_label(key@, value@),
{
    let mut s = ",".to_owned();
    s.append(key);
    s.append("=\"");
    s.append(value);
    s.append("\"");
    s
}

/// One holder's time by the first `n` parts, each under its label.
pub open spec fn part_rows(
    out: Seq<char>,
    name: Seq<char>,
    holder: int,
    key: Seq<char>,
    parts: Seq<&'static str>,
    ns: Seq<u64>,
    n: nat,
) -> Seq<char>
    decreases n,
{
    if n == 0 {
        out
    } else {
        line(
            part_rows(out, name, holder, key, parts, ns, (n - 1) as nat),
            holder_name(name, holder, then_label(key, parts[n - 1]@)),
            fixed_point(ns[n - 1] as nat, 9),
        )
    }
}

fn push_parts(
    out: &mut String,
    name: &str,
    holder: usize,
    key: &str,
    parts: &[&'static str],
    ns: &[u64],
)
    requires
        holder < 12,
        parts@.len() == ns@.len(),
    ensures
        final(out)@ == part_rows(
            old(out)@,
            name@,
            holder as int,
            key@,
            parts@,
            ns@,
            parts@.len(),
        ),
{
    let ghost start = out@;
    let mut i: usize = 0;
    while i < parts.len()
        invariant
            i <= parts.len(),
            holder < 12,
            parts@.len() == ns@.len(),
            out@ == part_rows(start, name@, holder as int, key@, parts@, ns@, i as nat),
        decreases parts.len() - i,
    {
        let label = then_label_text(key, parts[i]);
        push_fraction(out, holder_name_text(name, holder, label.as_str()).as_str(), ns[i], 9);
        i = i + 1;
    }
}

/// The first `n` holders' time by component.
pub open spec fn component_rows(out: Seq<char>, d: HoldDecomposition, n: nat) -> Seq<char>
    decreases n,
{
    if n == 0 {
        out
    } else {
        part_rows(
            component_rows(out, d, (n - 1) as nat),
            "kimmy_write_lock_held_component_seconds_total"@,
            n - 1,
            "component"@,
            HOLD_COMPONENTS@,
            d.component_ns@[n - 1]@,
            5,
        )
    }
}

/// The first `n` holders' time by phase.
pub open spec fn phase_rows(out: Seq<char>, d: HoldDecomposition, n: nat) -> Seq<char>
    decreases n,
{
    if n == 0 {
        out
    } else {
        part_rows(
            phase_rows(out, d, (n - 1) as nat),
            "kimmy_write_lock_held_phase_seconds_total"@,
            n - 1,
            "phase"@,
            HOLD_PHASES@,
            d.phase_ns@[n - 1]@,
            3,
        )
    }
}

/// The first `n` holders' bytes read and written.
pub open spec fn io_rows(out: Seq<char>, d: HoldDecomposition, n: nat) -> Seq<char>
    decreases n,
{
    if n == 0 {
        out
    } else {
        let name = "kimmy_write_lock_held_io_bytes_total"@;
        let out = line(
            io_rows(out, d, (n - 1) as nat),
            holder_name(name, n - 1, then_label("io"@, "read"@)),
            decimal(d.read_bytes@[n - 1] as nat),
        );
        line(
            out,
            holder_name(name, n - 1, then_label("io"@, "write"@)),
            decimal(d.write_bytes@[n - 1] as nat),
        )
    }
}

/// The first `n` holders' estimated page writes.
pub open spec fn estimated_rows(out: Seq<char>, d: HoldDecomposition, n: nat) -> Seq<char>
    decreases n,
{
    if n == 0 {
        out
    } else {
        line(
            estimated_rows(out, d, (n - 1) as nat),
            holder_name("kimmy_write_lock_held_write_estimated_seconds_total"@, n - 1, ""@),
            fixed_point(d.write_estimated_ns@[n - 1] as nat, 9),
        )
    }
}

/// The first `n` holders' over-counted holds.
pub open spec fn overcounted_rows(out: Seq<char>, d: HoldDecomposition, n: nat) -> Seq<char>
    decreases n,
{
    if n == 0 {
        out
    } else {
        line(
            overcounted_rows(out, d, (n - 1) as nat),
            holder_name("kimmy_write_lock_held_overcounted_total"@, n - 1, ""@),
            decimal(d.overcounted@[n - 1] as nat),
        )
    }
}

/// What the writer's holds were made of, per holder: components, phases, bytes,
/// the bound on the component split's error, and the holds whose measured parts
/// came to more than the hold.
#[verifier::opaque]
pub open spec fn hold_decomposition(out: Seq<char>, d: HoldDecomposition) -> Seq<char> {
    let out = header(
        out,
        "kimmy_write_lock_held_component_seconds_total"@,
        help::H_WRITE_LOCK_HELD_COMPONENT_SECONDS_TOTAL@,
        "counter"@,
    );
    let out = component_rows(out, d, 12);
    let out = header(
        out,
        "kimmy_write_lock_held_phase_seconds_total"@,
        help::H_WRITE_LOCK_HELD_PHASE_SECONDS_TOTAL@,
        "counter"@,
    );
    let out = phase_rows(out, d, 12);
    let out = header(
        out,
        "kimmy_write_lock_held_io_bytes_total"@,
        help::H_WRITE_LOCK_HELD_IO_BYTES_TOTAL@,
        "counter"@,
    );
    let out = io_rows(out, d, 12);
    let out = header(
        out,
        "kimmy_write_lock_held_write_estimated_seconds_total"@,
        help::H_WRITE_LOCK_HELD_WRITE_ESTIMATED_SECONDS_TOTAL@,
        "counter"@,
    );
    let out = estimated_rows(out, d, 12);
    let out = header(
        out,
        "kimmy_write_lock_held_overcounted_total"@,
        help::H_WRITE_LOCK_HELD_OVERCOUNTED_TOTAL@,
        "counter"@,
    );
    let out = overcounted_rows(out, d, 12);
    let out = header(
        out,
        "kimmy_write_lock_held_cpu_unmeasured_total"@,
        help::H_WRITE_LOCK_HELD_CPU_UNMEASURED_TOTAL@,
        "counter"@,
    );
    line(
        out,
        "kimmy_write_lock_held_cpu_unmeasured_total"@,
        decimal(d.cpu_unmeasured as nat),
    )
}

fn render_hold_decomposition(out: &mut String, d: &HoldDecomposition)
    ensures
        final(out)@ == hold_decomposition(old(out)@, *d),
{
    reveal(hold_decomposition);
    push_header(
        out,
        "kimmy_write_lock_held_component_seconds_total",
        help::H_WRITE_LOCK_HELD_COMPONENT_SECONDS_TOTAL,
        "counter",
    );
    let ghost start = out@;
    let mut i: usize = 0;
    while i < 12
        invariant
            i <= 12,
            out@ == component_rows(start, *d, i as nat),
        decreases 12 - i,
    {
        push_parts(
            out,
            "kimmy_write_lock_held_component_seconds_total",
            i,
            "component",
            &HOLD_COMPONENTS,
            &d.component_ns[i],
        );
        i = i + 1;
    }
    push_header(
        out,
        "kimmy_write_lock_held_phase_seconds_total",
        help::H_WRITE_LOCK_HELD_PHASE_SECONDS_TOTAL,
        "counter",
    );
    let ghost start = out@;
    let mut i: usize = 0;
    while i < 12
        invariant
            i <= 12,
            out@ == phase_rows(start, *d, i as nat),
        decreases 12 - i,
    {
        push_parts(
            out,
            "kimmy_write_lock_held_phase_seconds_total",
            i,
            "phase",
            &HOLD_PHASES,
            &d.phase_ns[i],
        );
        i = i + 1;
    }
    push_header(
        out,
        "kimmy_write_lock_held_io_bytes_total",
        help::H_WRITE_LOCK_HELD_IO_BYTES_TOTAL,
        "counter",
    );
    let ghost start = out@;
    let read = then_label_text("io", "read");
    let write = then_label_text("io", "write");
    let mut i: usize = 0;
    while i < 12
        invariant
            i <= 12,
            read@ == then_label("io"@, "read"@),
            write@ == then_label("io"@, "write"@),
            out@ == io_rows(start, *d, i as nat),
        decreases 12 - i,
    {
        let name = "kimmy_write_lock_held_io_bytes_total";
        push_count(out, holder_name_text(name, i, read.as_str()).as_str(), d.read_bytes[i]);
        push_count(out, holder_name_text(name, i, write.as_str()).as_str(), d.write_bytes[i]);
        i = i + 1;
    }
    push_header(
        out,
        "kimmy_write_lock_held_write_estimated_seconds_total",
        help::H_WRITE_LOCK_HELD_WRITE_ESTIMATED_SECONDS_TOTAL,
        "counter",
    );
    let ghost start = out@;
    let mut i: usize = 0;
    while i < 12
        invariant
            i <= 12,
            out@ == estimated_rows(start, *d, i as nat),
        decreases 12 - i,
    {
        push_fraction(
            out,
            holder_name_text("kimmy_write_lock_held_write_estimated_seconds_total", i, "").as_str(),
            d.write_estimated_ns[i],
            9,
        );
        i = i + 1;
    }
    push_header(
        out,
        "kimmy_write_lock_held_overcounted_total",
        help::H_WRITE_LOCK_HELD_OVERCOUNTED_TOTAL,
        "counter",
    );
    let ghost start = out@;
    let mut i: usize = 0;
    while i < 12
        invariant
            i <= 12,
            out@ == overcounted_rows(start, *d, i as nat),
        decreases 12 - i,
    {
        push_count(
            out,
            holder_name_text("kimmy_write_lock_held_overcounted_total", i, "").as_str(),
            d.overcounted[i],
        );
        i = i + 1;
    }
    push_header(
        out,
        "kimmy_write_lock_held_cpu_unmeasured_total",
        help::H_WRITE_LOCK_HELD_CPU_UNMEASURED_TOTAL,
        "counter",
    );
    push_count(out, "kimmy_write_lock_held_cpu_unmeasured_total", d.cpu_unmeasured);
}

/// The first `n` tasks' retries.
pub open spec fn task_rows(out: Seq<char>, retries: Seq<u64>, n: nat) -> Seq<char>
    decreases n,
{
    if n == 0 {
        out
    } else {
        line(
            task_rows(out, retries, (n - 1) as nat),
            "kimmy_task_retries_total{task=\""@ + TASKS@[n - 1]@ + "\"}"@,
            decimal(retries[n - 1] as nat),
        )
    }
}

fn render_task_retries(out: &mut String, retries: &[u64; 16])
    ensures
        final(out)@ == task_rows(old(out)@, retries@, 16),
{
    let ghost start = out@;
    let mut i: usize = 0;
    while i < 16
        invariant
            i <= 16,
            out@ == task_rows(start, retries@, i as nat),
        decreases 16 - i,
    {
        let mut name = "kimmy_task_retries_total{task=\"".to_owned();
        name.append(TASKS[i]);
        name.append("\"}");
        push_count(out, name.as_str(), retries[i]);
        i = i + 1;
    }
}

/// The progress ages of the first `n` writers, one line for each that this
/// node runs.
pub open spec fn progress_rows(out: Seq<char>, ages: Seq<Option<u64>>, n: nat) -> Seq<char>
    decreases n,
{
    if n == 0 {
        out
    } else {
        let out = progress_rows(out, ages, (n - 1) as nat);
        match ages[n - 1] {
            Some(age) => line(
                out,
                "kimmy_task_progress_age_seconds{task=\""@ + PROGRESS_WRITERS@[n - 1]@ + "\"}"@,
                decimal(age as nat),
            ),
            None => out,
        }
    }
}

fn render_task_progress(out: &mut String, ages: &[Option<u64>; 5])
    ensures
        final(out)@ == progress_rows(old(out)@, ages@, 5),
{
    let ghost start = out@;
    let mut i: usize = 0;
    while i < 5
        invariant
            i <= 5,
            out@ == progress_rows(start, ages@, i as nat),
        decreases 5 - i,
    {
        match ages[i] {
            Some(age) => {
                let mut name = "kimmy_task_progress_age_seconds{task=\"".to_owned();
                name.append(PROGRESS_WRITERS[i]);
                name.append("\"}");
                push_count(out, name.as_str(), age);
            },
            None => {},
        }
        i = i + 1;
    }
}

/// The first `n` outcomes' confirmations.
pub open spec fn confirmation_rows(out: Seq<char>, counts: Seq<u64>, n: nat) -> Seq<char>
    decreases n,
{
    if n == 0 {
        out
    } else {
        line(
            confirmation_rows(out, counts, (n - 1) as nat),
            "kimmy_ddl_confirmations_total{outcome=\""@ + CONFIRM_OUTCOMES@[n - 1]@ + "\"}"@,
            decimal(counts[n - 1] as nat),
        )
    }
}

fn render_confirmations(out: &mut String, counts: &[u64; 12])
    ensures
        final(out)@ == confirmation_rows(old(out)@, counts@, 12),
{
    let ghost start = out@;
    let mut i: usize = 0;
    while i < 12
        invariant
            i <= 12,
            out@ == confirmation_rows(start, counts@, i as nat),
        decreases 12 - i,
    {
        let mut name = "kimmy_ddl_confirmations_total{outcome=\"".to_owned();
        name.append(CONFIRM_OUTCOMES[i]);
        name.append("\"}");
        push_count(out, name.as_str(), counts[i]);
        i = i + 1;
    }
}

/// The engine's readings.
#[verifier::opaque]
pub open spec fn engine_section(out: Seq<char>, s: MetricsSnapshot, wait: WriterWaitSnapshot, hold: WriterHoldSnapshot) -> Seq<char> {
    let out = header(out, "kimmy_databases"@, help::H_DATABASES@, "gauge"@);
    let out = line(out, "kimmy_databases"@, decimal(s.databases as nat));
    let out = header(out, "kimmy_collections"@, help::H_COLLECTIONS@, "gauge"@);
    let out = line(out, "kimmy_collections"@, decimal(s.collections as nat));
    let out = header(out, "kimmy_unique_violations"@, help::H_UNIQUE_VIOLATIONS@, "counter"@);
    let out = line(out, "kimmy_unique_violations"@, decimal(s.unique_violations as nat));
    let out = header(out, "kimmy_commits"@, help::H_COMMITS@, "counter"@);
    let out = line(out, "kimmy_commits"@, decimal(s.commits as nat));
    let out = header(out, "kimmy_fsyncs"@, help::H_FSYNCS@, "counter"@);
    let out = line(out, "kimmy_fsyncs"@, decimal(s.fsyncs as nat));
    let out = header(out, "kimmy_commits_grouped_total"@, help::H_COMMITS_GROUPED_TOTAL@, "counter"@);
    let out = line(out, "kimmy_commits_grouped_total"@, decimal(s.commits_grouped as nat));
    let out = writer_wait(out, wait);
    let out = header(out, "kimmy_write_lock_wait_timeouts_total"@, help::H_WRITE_LOCK_WAIT_TIMEOUTS_TOTAL@, "counter"@);
    let out = line(out, "kimmy_write_lock_wait_timeouts_total"@, decimal(s.write_lock_wait_timeouts as nat));
    let out = header(out, "kimmy_write_lock_held_seconds_max"@, help::H_WRITE_LOCK_HELD_SECONDS_MAX@, "gauge"@);
    let out = line(out, "kimmy_write_lock_held_seconds_max"@, fixed_point(s.write_lock_held_max_us as nat, 6));
    let out = writer_hold(out, hold);
    let out = hold_decomposition(out, s.write_lock_hold);
    out
}

fn render_engine_section(out: &mut String, s: &MetricsSnapshot, wait: &WriterWaitSnapshot, hold: &WriterHoldSnapshot)
    ensures
        final(out)@ == engine_section(old(out)@, *s, *wait, *hold),
{
    reveal(engine_section);
    push_header(out, "kimmy_databases", help::H_DATABASES, "gauge");
    push_count(out, "kimmy_databases", s.databases);
    push_header(out, "kimmy_collections", help::H_COLLECTIONS, "gauge");
    push_count(out, "kimmy_collections", s.collections);
    push_header(out, "kimmy_unique_violations", help::H_UNIQUE_VIOLATIONS, "counter");
    push_count(out, "kimmy_unique_violations", s.unique_violations);
    push_header(out, "kimmy_commits", help::H_COMMITS, "counter");
    push_count(out, "kimmy_commits", s.commits);
    push_header(out, "kimmy_fsyncs", help::H_FSYNCS, "counter");
    push_count(out, "kimmy_fsyncs", s.fsyncs);
    push_header(out, "kimmy_commits_grouped_total", help::H_COMMITS_GROUPED_TOTAL, "counter");
    push_count(out, "kimmy_commits_grouped_total", s.commits_grouped);
    render_writer_wait(out, wait);
    push_header(out, "kimmy_write_lock_wait_timeouts_total", help::H_WRITE_LOCK_WAIT_TIMEOUTS_TOTAL, "counter");
    push_count(out, "kimmy_write_lock_wait_timeouts_total", s.write_lock_wait_timeouts);
    push_header(out, "kimmy_write_lock_held_seconds_max", help::H_WRITE_LOCK_HELD_SECONDS_MAX, "gauge");
    push_fraction(out, "kimmy_write_lock_held_seconds_max", s.write_lock_held_max_us, 6);
    render_writer_hold(out, hold);
    render_hold_decomposition(out, &s.write_lock_hold);
}

/// The process: its memory, its tasks and its runtime.
#[verifier::opaque]
pub open spec fn process_section(out: Seq<char>, s: MetricsSnapshot, retries: Seq<u64>) -> Seq<char> {
    let out = header(out, "kimmy_storage_bytes"@, help::H_STORAGE_BYTES@, "gauge"@);
    let out = line(out, "kimmy_storage_bytes"@, decimal(s.storage_bytes as nat));
    let out = header(out, "kimmy_vector_index_cache_bytes"@, help::H_VECTOR_INDEX_CACHE_BYTES@, "gauge"@);
    let out = line(out, "kimmy_vector_index_cache_bytes"@, decimal(s.vector_index_cache_bytes as nat));
    let out = header(out, "kimmy_process_resident_bytes"@, help::H_PROCESS_RESIDENT_BYTES@, "gauge"@);
    let out = line(out, "kimmy_process_resident_bytes"@, decimal(s.process_resident_bytes as nat));
    let out = header(out, "kimmy_process_resident_peak_bytes"@, help::H_PROCESS_RESIDENT_PEAK_BYTES@, "gauge"@);
    let out = line(out, "kimmy_process_resident_peak_bytes"@, decimal(s.process_resident_peak_bytes as nat));
    let out = header(out, "kimmy_up"@, help::H_UP@, "gauge"@);
    let out = line(out, "kimmy_up"@, decimal(1));
    let out = header(out, "kimmy_uptime_seconds"@, help::H_UPTIME_SECONDS@, "gauge"@);
    let out = line(out, "kimmy_uptime_seconds"@, decimal(s.uptime_secs as nat));
    let out = header(out, "kimmy_task_retries_total"@, help::H_TASK_RETRIES_TOTAL@, "counter"@);
    let out = task_rows(out, retries, 16);
    let out = header(out, "kimmy_task_progress_age_seconds"@, help::H_TASK_PROGRESS_AGE_SECONDS@, "gauge"@);
    let out = progress_rows(out, s.task_progress_age_secs@, 5);
    let out = header(out, "kimmy_runtime_stall_seconds"@, help::H_RUNTIME_STALL_SECONDS@, "gauge"@);
    let out = line(out, "kimmy_runtime_stall_seconds"@, fixed_point(s.runtime_stall_us as nat, 6));
    out
}

fn render_process_section(out: &mut String, s: &MetricsSnapshot, retries: &[u64; 16])
    ensures
        final(out)@ == process_section(old(out)@, *s, retries@),
{
    reveal(process_section);
    push_header(out, "kimmy_storage_bytes", help::H_STORAGE_BYTES, "gauge");
    push_count(out, "kimmy_storage_bytes", s.storage_bytes);
    push_header(out, "kimmy_vector_index_cache_bytes", help::H_VECTOR_INDEX_CACHE_BYTES, "gauge");
    push_count(out, "kimmy_vector_index_cache_bytes", s.vector_index_cache_bytes);
    push_header(out, "kimmy_process_resident_bytes", help::H_PROCESS_RESIDENT_BYTES, "gauge");
    push_count(out, "kimmy_process_resident_bytes", s.process_resident_bytes);
    push_header(out, "kimmy_process_resident_peak_bytes", help::H_PROCESS_RESIDENT_PEAK_BYTES, "gauge");
    push_count(out, "kimmy_process_resident_peak_bytes", s.process_resident_peak_bytes);
    push_header(out, "kimmy_up", help::H_UP, "gauge");
    push_count(out, "kimmy_up", 1);
    push_header(out, "kimmy_uptime_seconds", help::H_UPTIME_SECONDS, "gauge");
    push_count(out, "kimmy_uptime_seconds", s.uptime_secs);
    push_header(out, "kimmy_task_retries_total", help::H_TASK_RETRIES_TOTAL, "counter");
    render_task_retries(out, retries);
    push_header(out, "kimmy_task_progress_age_seconds", help::H_TASK_PROGRESS_AGE_SECONDS, "gauge");
    render_task_progress(out, &s.task_progress_age_secs);
    push_header(out, "kimmy_runtime_stall_seconds", help::H_RUNTIME_STALL_SECONDS, "gauge");
    push_fraction(out, "kimmy_runtime_stall_seconds", s.runtime_stall_us, 6);
}

/// Requests, refusals, backups, expiry and indexes.
#[verifier::opaque]
pub open spec fn request_section(out: Seq<char>, s: MetricsSnapshot) -> Seq<char> {
    let out = header(out, "kimmy_requests_total"@, help::H_REQUESTS_TOTAL@, "counter"@);
    let out = line(out, "kimmy_requests_total"@, decimal(s.requests as nat));
    let out = header(out, "kimmy_responses_total"@, help::H_RESPONSES_TOTAL@, "counter"@);
    let out = line(out, "kimmy_responses_total{class=\"2xx\"}"@, decimal(s.responses_2xx as nat));
    let out = line(out, "kimmy_responses_total{class=\"4xx\"}"@, decimal(s.responses_4xx as nat));
    let out = line(out, "kimmy_responses_total{class=\"5xx\"}"@, decimal(s.responses_5xx as nat));
    let out = header(out, "kimmy_authz_denied_total"@, help::H_AUTHZ_DENIED_TOTAL@, "counter"@);
    let out = line(out, "kimmy_authz_denied_total"@, decimal(s.authz_denied as nat));
    let out = header(out, "kimmy_auth_failures_total"@, help::H_AUTH_FAILURES_TOTAL@, "counter"@);
    let out = line(out, "kimmy_auth_failures_total"@, decimal(s.auth_failures as nat));
    let out = header(out, "kimmy_rate_limited_total"@, help::H_RATE_LIMITED_TOTAL@, "counter"@);
    let out = line(out, "kimmy_rate_limited_total"@, decimal(s.rate_limited as nat));
    let out = header(out, "kimmy_rate_limited_principal_total"@, help::H_RATE_LIMITED_PRINCIPAL_TOTAL@, "counter"@);
    let out = line(out, "kimmy_rate_limited_principal_total"@, decimal(s.rate_limited_principal as nat));
    let out = header(out, "kimmy_backups_total"@, help::H_BACKUPS_TOTAL@, "counter"@);
    let out = line(out, "kimmy_backups_total"@, decimal(s.backups as nat));
    let out = header(out, "kimmy_ttl_expired_total"@, help::H_TTL_EXPIRED_TOTAL@, "counter"@);
    let out = line(out, "kimmy_ttl_expired_total"@, decimal(s.ttl_expired as nat));
    let out = header(out, "kimmy_ttl_skipped_total"@, help::H_TTL_SKIPPED_TOTAL@, "counter"@);
    let out = line(out, "kimmy_ttl_skipped_total"@, decimal(s.ttl_skipped as nat));
    let out = header(out, "kimmy_ttl_skipped_filter_total"@, help::H_TTL_SKIPPED_FILTER_TOTAL@, "counter"@);
    let out = line(out, "kimmy_ttl_skipped_filter_total"@, decimal(s.ttl_skipped_filter as nat));
    let out = header(out, "kimmy_index_unkeyed_total"@, help::H_INDEX_UNKEYED_TOTAL@, "counter"@);
    let out = line(out, "kimmy_index_unkeyed_total"@, decimal(s.index_unkeyed as nat));
    let out = header(out, "kimmy_index_undecidable_total"@, help::H_INDEX_UNDECIDABLE_TOTAL@, "counter"@);
    let out = line(out, "kimmy_index_undecidable_total"@, decimal(s.index_undecidable as nat));
    out
}

fn render_request_section(out: &mut String, s: &MetricsSnapshot)
    ensures
        final(out)@ == request_section(old(out)@, *s),
{
    reveal(request_section);
    push_header(out, "kimmy_requests_total", help::H_REQUESTS_TOTAL, "counter");
    push_count(out, "kimmy_requests_total", s.requests);
    push_header(out, "kimmy_responses_total", help::H_RESPONSES_TOTAL, "counter");
    push_count(out, "kimmy_responses_total{class=\"2xx\"}", s.responses_2xx);
    push_count(out, "kimmy_responses_total{class=\"4xx\"}", s.responses_4xx);
    push_count(out, "kimmy_responses_total{class=\"5xx\"}", s.responses_5xx);
    push_header(out, "kimmy_authz_denied_total", help::H_AUTHZ_DENIED_TOTAL, "counter");
    push_count(out, "kimmy_authz_denied_total", s.authz_denied);
    push_header(out, "kimmy_auth_failures_total", help::H_AUTH_FAILURES_TOTAL, "counter");
    push_count(out, "kimmy_auth_failures_total", s.auth_failures);
    push_header(out, "kimmy_rate_limited_total", help::H_RATE_LIMITED_TOTAL, "counter");
    push_count(out, "kimmy_rate_limited_total", s.rate_limited);
    push_header(out, "kimmy_rate_limited_principal_total", help::H_RATE_LIMITED_PRINCIPAL_TOTAL, "counter");
    push_count(out, "kimmy_rate_limited_principal_total", s.rate_limited_principal);
    push_header(out, "kimmy_backups_total", help::H_BACKUPS_TOTAL, "counter");
    push_count(out, "kimmy_backups_total", s.backups);
    push_header(out, "kimmy_ttl_expired_total", help::H_TTL_EXPIRED_TOTAL, "counter");
    push_count(out, "kimmy_ttl_expired_total", s.ttl_expired);
    push_header(out, "kimmy_ttl_skipped_total", help::H_TTL_SKIPPED_TOTAL, "counter");
    push_count(out, "kimmy_ttl_skipped_total", s.ttl_skipped);
    push_header(out, "kimmy_ttl_skipped_filter_total", help::H_TTL_SKIPPED_FILTER_TOTAL, "counter");
    push_count(out, "kimmy_ttl_skipped_filter_total", s.ttl_skipped_filter);
    push_header(out, "kimmy_index_unkeyed_total", help::H_INDEX_UNKEYED_TOTAL, "counter");
    push_count(out, "kimmy_index_unkeyed_total", s.index_unkeyed);
    push_header(out, "kimmy_index_undecidable_total", help::H_INDEX_UNDECIDABLE_TOTAL, "counter");
    push_count(out, "kimmy_index_undecidable_total", s.index_undecidable);
}

/// Webhooks, membership and replication.
#[verifier::opaque]
pub open spec fn webhook_section(out: Seq<char>, s: MetricsSnapshot) -> Seq<char> {
    let out = header(out, "kimmy_webhook_deliveries_total"@, help::H_WEBHOOK_DELIVERIES_TOTAL@, "counter"@);
    let out = line(out, "kimmy_webhook_deliveries_total{outcome=\"delivered\"}"@, decimal(s.webhook_delivered as nat));
    let out = line(out, "kimmy_webhook_deliveries_total{outcome=\"failed\"}"@, decimal(s.webhook_failed as nat));
    let out = header(out, "kimmy_webhook_events_total"@, help::H_WEBHOOK_EVENTS_TOTAL@, "counter"@);
    let out = line(out, "kimmy_webhook_events_total"@, decimal(s.webhook_events as nat));
    let out = header(out, "kimmy_webhook_subscriptions"@, help::H_WEBHOOK_SUBSCRIPTIONS@, "gauge"@);
    let out = line(out, "kimmy_webhook_subscriptions{state=\"active\"}"@, decimal(s.webhook_active as nat));
    let out = line(out, "kimmy_webhook_subscriptions{state=\"invalidated\"}"@, decimal(s.webhook_invalidated as nat));
    let out = line(out, "kimmy_webhook_subscriptions{state=\"unreadable\"}"@, decimal(s.webhook_unreadable as nat));
    let out = header(out, "kimmy_webhook_backlog_seconds"@, help::H_WEBHOOK_BACKLOG_SECONDS@, "gauge"@);
    let out = line(out, "kimmy_webhook_backlog_seconds"@, decimal(s.webhook_backlog_secs as nat));
    let out = header(out, "kimmy_cluster_members"@, help::H_CLUSTER_MEMBERS@, "gauge"@);
    let out = line(out, "kimmy_cluster_members"@, decimal(s.cluster_members as nat));
    let out = header(out, "kimmy_replication_lag_seconds"@, help::H_REPLICATION_LAG_SECONDS@, "gauge"@);
    let out = line(out, "kimmy_replication_lag_seconds"@, fixed_point(s.replication_lag_ms as nat, 3));
    let out = header(out, "kimmy_sync_failures_total"@, help::H_SYNC_FAILURES_TOTAL@, "counter"@);
    let out = line(out, "kimmy_sync_failures_total"@, decimal(s.sync_failures as nat));
    let out = header(out, "kimmy_sync_peers_backing_off"@, help::H_SYNC_PEERS_BACKING_OFF@, "gauge"@);
    let out = line(out, "kimmy_sync_peers_backing_off"@, decimal(s.sync_peers_backing_off as nat));
    let out = header(out, "kimmy_sync_ddl_refused_total"@, help::H_SYNC_DDL_REFUSED_TOTAL@, "counter"@);
    let out = line(out, "kimmy_sync_ddl_refused_total"@, decimal(s.sync_ddl_refused as nat));
    let out = header(out, "kimmy_sync_ddl_declined_total"@, help::H_SYNC_DDL_DECLINED_TOTAL@, "counter"@);
    let out = line(out, "kimmy_sync_ddl_declined_total"@, decimal(s.sync_ddl_declined as nat));
    let out = header(out, "kimmy_sync_ddl_applied_total"@, help::H_SYNC_DDL_APPLIED_TOTAL@, "counter"@);
    let out = line(out, "kimmy_sync_ddl_applied_total{via=\"pull\"}"@, decimal(s.sync_ddl_applied_pull as nat));
    let out = line(out, "kimmy_sync_ddl_applied_total{via=\"push\"}"@, decimal(s.sync_ddl_applied_push as nat));
    let out = header(out, "kimmy_sync_ddl_held_total"@, help::H_SYNC_DDL_HELD_TOTAL@, "counter"@);
    let out = line(out, "kimmy_sync_ddl_held_total{via=\"pull\"}"@, decimal(s.sync_ddl_held_pull as nat));
    let out = line(out, "kimmy_sync_ddl_held_total{via=\"push\"}"@, decimal(s.sync_ddl_held_push as nat));
    out
}

fn render_webhook_section(out: &mut String, s: &MetricsSnapshot)
    ensures
        final(out)@ == webhook_section(old(out)@, *s),
{
    reveal(webhook_section);
    push_header(out, "kimmy_webhook_deliveries_total", help::H_WEBHOOK_DELIVERIES_TOTAL, "counter");
    push_count(out, "kimmy_webhook_deliveries_total{outcome=\"delivered\"}", s.webhook_delivered);
    push_count(out, "kimmy_webhook_deliveries_total{outcome=\"failed\"}", s.webhook_failed);
    push_header(out, "kimmy_webhook_events_total", help::H_WEBHOOK_EVENTS_TOTAL, "counter");
    push_count(out, "kimmy_webhook_events_total", s.webhook_events);
    push_header(out, "kimmy_webhook_subscriptions", help::H_WEBHOOK_SUBSCRIPTIONS, "gauge");
    push_count(out, "kimmy_webhook_subscriptions{state=\"active\"}", s.webhook_active);
    push_count(out, "kimmy_webhook_subscriptions{state=\"invalidated\"}", s.webhook_invalidated);
    push_count(out, "kimmy_webhook_subscriptions{state=\"unreadable\"}", s.webhook_unreadable);
    push_header(out, "kimmy_webhook_backlog_seconds", help::H_WEBHOOK_BACKLOG_SECONDS, "gauge");
    push_count(out, "kimmy_webhook_backlog_seconds", s.webhook_backlog_secs);
    push_header(out, "kimmy_cluster_members", help::H_CLUSTER_MEMBERS, "gauge");
    push_count(out, "kimmy_cluster_members", s.cluster_members);
    push_header(out, "kimmy_replication_lag_seconds", help::H_REPLICATION_LAG_SECONDS, "gauge");
    push_fraction(out, "kimmy_replication_lag_seconds", s.replication_lag_ms, 3);
    push_header(out, "kimmy_sync_failures_total", help::H_SYNC_FAILURES_TOTAL, "counter");
    push_count(out, "kimmy_sync_failures_total", s.sync_failures);
    push_header(out, "kimmy_sync_peers_backing_off", help::H_SYNC_PEERS_BACKING_OFF, "gauge");
    push_count(out, "kimmy_sync_peers_backing_off", s.sync_peers_backing_off);
    push_header(out, "kimmy_sync_ddl_refused_total", help::H_SYNC_DDL_REFUSED_TOTAL, "counter");
    push_count(out, "kimmy_sync_ddl_refused_total", s.sync_ddl_refused);
    push_header(out, "kimmy_sync_ddl_declined_total", help::H_SYNC_DDL_DECLINED_TOTAL, "counter");
    push_count(out, "kimmy_sync_ddl_declined_total", s.sync_ddl_declined);
    push_header(out, "kimmy_sync_ddl_applied_total", help::H_SYNC_DDL_APPLIED_TOTAL, "counter");
    push_count(out, "kimmy_sync_ddl_applied_total{via=\"pull\"}", s.sync_ddl_applied_pull);
    push_count(out, "kimmy_sync_ddl_applied_total{via=\"push\"}", s.sync_ddl_applied_push);
    push_header(out, "kimmy_sync_ddl_held_total", help::H_SYNC_DDL_HELD_TOTAL, "counter");
    push_count(out, "kimmy_sync_ddl_held_total{via=\"pull\"}", s.sync_ddl_held_pull);
    push_count(out, "kimmy_sync_ddl_held_total{via=\"push\"}", s.sync_ddl_held_push);
}

/// Schema changes confirmed, and divergence.
#[verifier::opaque]
pub open spec fn confirmation_section(out: Seq<char>, s: MetricsSnapshot) -> Seq<char> {
    let out = header(out, "kimmy_ddl_confirmations_total"@, help::H_DDL_CONFIRMATIONS_TOTAL@, "counter"@);
    let out = confirmation_rows(out, s.ddl_confirmations@, 12);
    let out = header(out, "kimmy_ddl_confirm_pushes_total"@, help::H_DDL_CONFIRM_PUSHES_TOTAL@, "counter"@);
    let out = line(out, "kimmy_ddl_confirm_pushes_total"@, decimal(s.ddl_confirm_pushes as nat));
    let out = header(out, "kimmy_sync_ddl_relogged_total"@, help::H_SYNC_DDL_RELOGGED_TOTAL@, "counter"@);
    let out = line(out, "kimmy_sync_ddl_relogged_total"@, decimal(s.sync_ddl_relogged as nat));
    let out = header(out, "kimmy_sync_divergent_collections"@, help::H_SYNC_DIVERGENT_COLLECTIONS@, "gauge"@);
    let out = line(out, "kimmy_sync_divergent_collections"@, decimal(s.sync_divergent_collections as nat));
    let out = header(out, "kimmy_sync_divergence_checks_total"@, help::H_SYNC_DIVERGENCE_CHECKS_TOTAL@, "counter"@);
    let out = line(out, "kimmy_sync_divergence_checks_total{outcome=\"ran\"}"@, decimal(s.sync_divergence_checks as nat));
    let out = line(out, "kimmy_sync_divergence_checks_total{outcome=\"skipped\"}"@, decimal(s.sync_divergence_skips as nat));
    let out = header(out, "kimmy_sync_divergence_count_probes_total"@, help::H_SYNC_DIVERGENCE_COUNT_PROBES_TOTAL@, "counter"@);
    let out = line(out, "kimmy_sync_divergence_count_probes_total{outcome=\"compared\"}"@, decimal(s.sync_divergence_count_compared as nat));
    let out = line(out, "kimmy_sync_divergence_count_probes_total{outcome=\"deferred\"}"@, decimal(s.sync_divergence_count_deferred as nat));
    let out = header(out, "kimmy_sync_divergence_check_age_seconds"@, help::H_SYNC_DIVERGENCE_CHECK_AGE_SECONDS@, "gauge"@);
    let out = line(out, "kimmy_sync_divergence_check_age_seconds"@, decimal(s.sync_divergence_check_age_secs as nat));
    out
}

fn render_confirmation_section(out: &mut String, s: &MetricsSnapshot)
    ensures
        final(out)@ == confirmation_section(old(out)@, *s),
{
    reveal(confirmation_section);
    push_header(out, "kimmy_ddl_confirmations_total", help::H_DDL_CONFIRMATIONS_TOTAL, "counter");
    render_confirmations(out, &s.ddl_confirmations);
    push_header(out, "kimmy_ddl_confirm_pushes_total", help::H_DDL_CONFIRM_PUSHES_TOTAL, "counter");
    push_count(out, "kimmy_ddl_confirm_pushes_total", s.ddl_confirm_pushes);
    push_header(out, "kimmy_sync_ddl_relogged_total", help::H_SYNC_DDL_RELOGGED_TOTAL, "counter");
    push_count(out, "kimmy_sync_ddl_relogged_total", s.sync_ddl_relogged);
    push_header(out, "kimmy_sync_divergent_collections", help::H_SYNC_DIVERGENT_COLLECTIONS, "gauge");
    push_count(out, "kimmy_sync_divergent_collections", s.sync_divergent_collections);
    push_header(out, "kimmy_sync_divergence_checks_total", help::H_SYNC_DIVERGENCE_CHECKS_TOTAL, "counter");
    push_count(out, "kimmy_sync_divergence_checks_total{outcome=\"ran\"}", s.sync_divergence_checks);
    push_count(out, "kimmy_sync_divergence_checks_total{outcome=\"skipped\"}", s.sync_divergence_skips);
    push_header(out, "kimmy_sync_divergence_count_probes_total", help::H_SYNC_DIVERGENCE_COUNT_PROBES_TOTAL, "counter");
    push_count(out, "kimmy_sync_divergence_count_probes_total{outcome=\"compared\"}", s.sync_divergence_count_compared);
    push_count(out, "kimmy_sync_divergence_count_probes_total{outcome=\"deferred\"}", s.sync_divergence_count_deferred);
    push_header(out, "kimmy_sync_divergence_check_age_seconds", help::H_SYNC_DIVERGENCE_CHECK_AGE_SECONDS, "gauge");
    push_count(out, "kimmy_sync_divergence_check_age_seconds", s.sync_divergence_check_age_secs);
}

/// What sync left, held, repaired and pulled.
#[verifier::opaque]
pub open spec fn sync_section(out: Seq<char>, s: MetricsSnapshot) -> Seq<char> {
    let out = header(out, "kimmy_sync_entries_skipped_total"@, help::H_SYNC_ENTRIES_SKIPPED_TOTAL@, "counter"@);
    let out = line(out, "kimmy_sync_entries_skipped_total{reason=\"unknown_collection\"}"@, decimal(s.sync_entries_skipped_unknown_collection as nat));
    let out = line(out, "kimmy_sync_entries_skipped_total{reason=\"beyond_advertised\"}"@, decimal(s.sync_entries_skipped_beyond_advertised as nat));
    let out = line(out, "kimmy_sync_entries_skipped_total{reason=\"purge_pending\"}"@, decimal(s.sync_entries_skipped_purge_pending as nat));
    let out = header(out, "kimmy_sync_held_marks_released_total"@, help::H_SYNC_HELD_MARKS_RELEASED_TOTAL@, "counter"@);
    let out = line(out, "kimmy_sync_held_marks_released_total"@, decimal(s.sync_held_marks_released as nat));
    let out = header(out, "kimmy_sync_held_marks"@, help::H_SYNC_HELD_MARKS@, "gauge"@);
    let out = line(out, "kimmy_sync_held_marks"@, decimal(s.sync_held_marks as nat));
    let out = header(out, "kimmy_sync_repair_rounds_total"@, help::H_SYNC_REPAIR_ROUNDS_TOTAL@, "counter"@);
    let out = line(out, "kimmy_sync_repair_rounds_total"@, decimal(s.sync_repair_rounds as nat));
    let out = header(out, "kimmy_sync_pulled_entries_total"@, help::H_SYNC_PULLED_ENTRIES_TOTAL@, "counter"@);
    let out = line(out, "kimmy_sync_pulled_entries_total"@, decimal(s.sync_pulls.entries as nat));
    let out = header(out, "kimmy_sync_entry_wait_ahead_total"@, help::H_SYNC_ENTRY_WAIT_AHEAD_TOTAL@, "counter"@);
    let out = line(out, "kimmy_sync_entry_wait_ahead_total"@, decimal(s.sync_pulls.entry_wait_ahead as nat));
    let out = header(out, "kimmy_sync_contacts_total"@, help::H_SYNC_CONTACTS_TOTAL@, "counter"@);
    let out = line(out, "kimmy_sync_contacts_total{ended=\"caught_up\"}"@, decimal(s.sync_pulls.contacts@[0] as nat));
    let out = line(out, "kimmy_sync_contacts_total{ended=\"budget\"}"@, decimal(s.sync_pulls.contacts@[1] as nat));
    let out = line(out, "kimmy_sync_contacts_total{ended=\"ceiling\"}"@, decimal(s.sync_pulls.contacts@[2] as nat));
    let out = line(out, "kimmy_sync_contacts_total{ended=\"failed\"}"@, decimal(s.sync_pulls.contacts@[3] as nat));
    out
}

fn render_sync_section(out: &mut String, s: &MetricsSnapshot)
    ensures
        final(out)@ == sync_section(old(out)@, *s),
{
    reveal(sync_section);
    push_header(out, "kimmy_sync_entries_skipped_total", help::H_SYNC_ENTRIES_SKIPPED_TOTAL, "counter");
    push_count(out, "kimmy_sync_entries_skipped_total{reason=\"unknown_collection\"}", s.sync_entries_skipped_unknown_collection);
    push_count(out, "kimmy_sync_entries_skipped_total{reason=\"beyond_advertised\"}", s.sync_entries_skipped_beyond_advertised);
    push_count(out, "kimmy_sync_entries_skipped_total{reason=\"purge_pending\"}", s.sync_entries_skipped_purge_pending);
    push_header(out, "kimmy_sync_held_marks_released_total", help::H_SYNC_HELD_MARKS_RELEASED_TOTAL, "counter");
    push_count(out, "kimmy_sync_held_marks_released_total", s.sync_held_marks_released);
    push_header(out, "kimmy_sync_held_marks", help::H_SYNC_HELD_MARKS, "gauge");
    push_count(out, "kimmy_sync_held_marks", s.sync_held_marks);
    push_header(out, "kimmy_sync_repair_rounds_total", help::H_SYNC_REPAIR_ROUNDS_TOTAL, "counter");
    push_count(out, "kimmy_sync_repair_rounds_total", s.sync_repair_rounds);
    push_header(out, "kimmy_sync_pulled_entries_total", help::H_SYNC_PULLED_ENTRIES_TOTAL, "counter");
    push_count(out, "kimmy_sync_pulled_entries_total", s.sync_pulls.entries);
    push_header(out, "kimmy_sync_entry_wait_ahead_total", help::H_SYNC_ENTRY_WAIT_AHEAD_TOTAL, "counter");
    push_count(out, "kimmy_sync_entry_wait_ahead_total", s.sync_pulls.entry_wait_ahead);
    push_header(out, "kimmy_sync_contacts_total", help::H_SYNC_CONTACTS_TOTAL, "counter");
    push_count(out, "kimmy_sync_contacts_total{ended=\"caught_up\"}", s.sync_pulls.contacts[0]);
    push_count(out, "kimmy_sync_contacts_total{ended=\"budget\"}", s.sync_pulls.contacts[1]);
    push_count(out, "kimmy_sync_contacts_total{ended=\"ceiling\"}", s.sync_pulls.contacts[2]);
    push_count(out, "kimmy_sync_contacts_total{ended=\"failed\"}", s.sync_pulls.contacts[3]);
}

/// Certificates, signing keys and embedding.
#[verifier::opaque]
pub open spec fn embed_section(out: Seq<char>, s: MetricsSnapshot) -> Seq<char> {
    let out = header(out, "kimmy_tls_reloads_total"@, help::H_TLS_RELOADS_TOTAL@, "counter"@);
    let out = line(out, "kimmy_tls_reloads_total{outcome=\"ok\"}"@, decimal(s.tls_reloads_ok as nat));
    let out = line(out, "kimmy_tls_reloads_total{outcome=\"failed\"}"@, decimal(s.tls_reloads_failed as nat));
    let out = header(out, "kimmy_jwks_refresh_total"@, help::H_JWKS_REFRESH_TOTAL@, "counter"@);
    let out = line(out, "kimmy_jwks_refresh_total{outcome=\"ok\"}"@, decimal(s.jwks_refresh_ok as nat));
    let out = line(out, "kimmy_jwks_refresh_total{outcome=\"failed\"}"@, decimal(s.jwks_refresh_failed as nat));
    let out = header(out, "kimmy_embed_documents_total"@, help::H_EMBED_DOCUMENTS_TOTAL@, "counter"@);
    let out = line(out, "kimmy_embed_documents_total"@, decimal(s.embed_documents_embedded as nat));
    let out = header(out, "kimmy_embed_chunks_total"@, help::H_EMBED_CHUNKS_TOTAL@, "counter"@);
    let out = line(out, "kimmy_embed_chunks_total"@, decimal(s.embed_chunks_embedded as nat));
    let out = header(out, "kimmy_embed_deferred_total"@, help::H_EMBED_DEFERRED_TOTAL@, "counter"@);
    let out = line(out, "kimmy_embed_deferred_total"@, decimal(s.embed_deferred as nat));
    let out = header(out, "kimmy_embed_skipped_not_owned_total"@, help::H_EMBED_SKIPPED_NOT_OWNED_TOTAL@, "counter"@);
    let out = line(out, "kimmy_embed_skipped_not_owned_total"@, decimal(s.embed_skipped_not_owned as nat));
    let out = header(out, "kimmy_embed_skipped_no_shadow_total"@, help::H_EMBED_SKIPPED_NO_SHADOW_TOTAL@, "counter"@);
    let out = line(out, "kimmy_embed_skipped_no_shadow_total"@, decimal(s.embed_skipped_no_shadow as nat));
    let out = header(out, "kimmy_embed_failures_total"@, help::H_EMBED_FAILURES_TOTAL@, "counter"@);
    let out = line(out, "kimmy_embed_failures_total"@, decimal(s.embed_failures as nat));
    let out = header(out, "kimmy_embed_provider_errors_total"@, help::H_EMBED_PROVIDER_ERRORS_TOTAL@, "counter"@);
    let out = line(out, "kimmy_embed_provider_errors_total{kind=\"connect\"}"@, decimal(s.embed_transport@[0] as nat));
    let out = line(out, "kimmy_embed_provider_errors_total{kind=\"timeout\"}"@, decimal(s.embed_transport@[1] as nat));
    let out = line(out, "kimmy_embed_provider_errors_total{kind=\"reset\"}"@, decimal(s.embed_transport@[2] as nat));
    let out = line(out, "kimmy_embed_provider_errors_total{kind=\"other\"}"@, decimal(s.embed_transport@[3] as nat));
    let out = header(out, "kimmy_embed_provider_requests_total"@, help::H_EMBED_PROVIDER_REQUESTS_TOTAL@, "counter"@);
    let out = line(out, "kimmy_embed_provider_requests_total"@, decimal(s.embed_provider_requests as nat));
    let out = header(out, "kimmy_embed_provider_tokens_total"@, help::H_EMBED_PROVIDER_TOKENS_TOTAL@, "counter"@);
    let out = line(out, "kimmy_embed_provider_tokens_total"@, decimal(s.embed_provider_tokens as nat));
    out
}

fn render_embed_section(out: &mut String, s: &MetricsSnapshot)
    ensures
        final(out)@ == embed_section(old(out)@, *s),
{
    reveal(embed_section);
    push_header(out, "kimmy_tls_reloads_total", help::H_TLS_RELOADS_TOTAL, "counter");
    push_count(out, "kimmy_tls_reloads_total{outcome=\"ok\"}", s.tls_reloads_ok);
    push_count(out, "kimmy_tls_reloads_total{outcome=\"failed\"}", s.tls_reloads_failed);
    push_header(out, "kimmy_jwks_refresh_total", help::H_JWKS_REFRESH_TOTAL, "counter");
    push_count(out, "kimmy_jwks_refresh_total{outcome=\"ok\"}", s.jwks_refresh_ok);
    push_count(out, "kimmy_jwks_refresh_total{outcome=\"failed\"}", s.jwks_refresh_failed);
    push_header(out, "kimmy_embed_documents_total", help::H_EMBED_DOCUMENTS_TOTAL, "counter");
    push_count(out, "kimmy_embed_documents_total", s.embed_documents_embedded);
    push_header(out, "kimmy_embed_chunks_total", help::H_EMBED_CHUNKS_TOTAL, "counter");
    push_count(out, "kimmy_embed_chunks_total", s.embed_chunks_embedded);
    push_header(out, "kimmy_embed_deferred_total", help::H_EMBED_DEFERRED_TOTAL, "counter");
    push_count(out, "kimmy_embed_deferred_total", s.embed_deferred);
    push_header(out, "kimmy_embed_skipped_not_owned_total", help::H_EMBED_SKIPPED_NOT_OWNED_TOTAL, "counter");
    push_count(out, "kimmy_embed_skipped_not_owned_total", s.embed_skipped_not_owned);
    push_header(out, "kimmy_embed_skipped_no_shadow_total", help::H_EMBED_SKIPPED_NO_SHADOW_TOTAL, "counter");
    push_count(out, "kimmy_embed_skipped_no_shadow_total", s.embed_skipped_no_shadow);
    push_header(out, "kimmy_embed_failures_total", help::H_EMBED_FAILURES_TOTAL, "counter");
    push_count(out, "kimmy_embed_failures_total", s.embed_failures);
    push_header(out, "kimmy_embed_provider_errors_total", help::H_EMBED_PROVIDER_ERRORS_TOTAL, "counter");
    push_count(out, "kimmy_embed_provider_errors_total{kind=\"connect\"}", s.embed_transport[0]);
    push_count(out, "kimmy_embed_provider_errors_total{kind=\"timeout\"}", s.embed_transport[1]);
    push_count(out, "kimmy_embed_provider_errors_total{kind=\"reset\"}", s.embed_transport[2]);
    push_count(out, "kimmy_embed_provider_errors_total{kind=\"other\"}", s.embed_transport[3]);
    push_header(out, "kimmy_embed_provider_requests_total", help::H_EMBED_PROVIDER_REQUESTS_TOTAL, "counter");
    push_count(out, "kimmy_embed_provider_requests_total", s.embed_provider_requests);
    push_header(out, "kimmy_embed_provider_tokens_total", help::H_EMBED_PROVIDER_TOKENS_TOTAL, "counter");
    push_count(out, "kimmy_embed_provider_tokens_total", s.embed_provider_tokens);
}

/// The two sync-pull histograms. Every phase is on the page whether or not a
/// pull has run.
#[verifier::opaque]
pub open spec fn sync_pulls(out: Seq<char>, pulls: PullReport) -> Seq<char> {
    let name = "kimmy_sync_pull_seconds"@;
    let out = header(out, name, help::H_SYNC_PULL_SECONDS@, "histogram"@);
    let out = histogram(
        out,
        name,
        "phase=\"serve\""@,
        PULL_BUCKETS_US@,
        pulls.serve.buckets@,
        pulls.serve.count,
        pulls.serve.sum_us,
    );
    let out = histogram(
        out,
        name,
        "phase=\"wait\""@,
        PULL_BUCKETS_US@,
        pulls.wait.buckets@,
        pulls.wait.count,
        pulls.wait.sum_us,
    );
    let out = histogram(
        out,
        name,
        "phase=\"apply\""@,
        PULL_BUCKETS_US@,
        pulls.apply.buckets@,
        pulls.apply.count,
        pulls.apply.sum_us,
    );
    let out = header(
        out,
        "kimmy_sync_entry_wait_seconds"@,
        help::H_SYNC_ENTRY_WAIT_SECONDS@,
        "histogram"@,
    );
    histogram(
        out,
        "kimmy_sync_entry_wait_seconds"@,
        ""@,
        ENTRY_WAIT_BUCKETS_US@,
        pulls.entry_wait.buckets@,
        pulls.entry_wait.count,
        pulls.entry_wait.sum_us,
    )
}

fn render_sync_pulls(out: &mut String, pulls: &PullReport)
    ensures
        final(out)@ == sync_pulls(old(out)@, *pulls),
{
    reveal(sync_pulls);
    let name = "kimmy_sync_pull_seconds";
    push_header(out, name, help::H_SYNC_PULL_SECONDS, "histogram");
    push_histogram(
        out,
        name,
        "phase=\"serve\"",
        &PULL_BUCKETS_US,
        &pulls.serve.buckets,
        pulls.serve.count,
        pulls.serve.sum_us,
    );
    push_histogram(
        out,
        name,
        "phase=\"wait\"",
        &PULL_BUCKETS_US,
        &pulls.wait.buckets,
        pulls.wait.count,
        pulls.wait.sum_us,
    );
    push_histogram(
        out,
        name,
        "phase=\"apply\"",
        &PULL_BUCKETS_US,
        &pulls.apply.buckets,
        pulls.apply.count,
        pulls.apply.sum_us,
    );
    push_header(
        out,
        "kimmy_sync_entry_wait_seconds",
        help::H_SYNC_ENTRY_WAIT_SECONDS,
        "histogram",
    );
    push_histogram(
        out,
        "kimmy_sync_entry_wait_seconds",
        "",
        &ENTRY_WAIT_BUCKETS_US,
        &pulls.entry_wait.buckets,
        pulls.entry_wait.count,
        pulls.entry_wait.sum_us,
    );
}

/// What serving peers' windows has cost this node.
#[verifier::opaque]
pub open spec fn sync_serve(out: Seq<char>, serve: ServeSnapshot) -> Seq<char> {
    let out = header(
        out,
        "kimmy_sync_served_windows_total"@,
        help::H_SYNC_SERVED_WINDOWS_TOTAL@,
        "counter"@,
    );
    let out = line(out, "kimmy_sync_served_windows_total"@, decimal(serve.windows as nat));
    let out = header(
        out,
        "kimmy_sync_served_entries_total"@,
        help::H_SYNC_SERVED_ENTRIES_TOTAL@,
        "counter"@,
    );
    let out = line(out, "kimmy_sync_served_entries_total"@, decimal(serve.entries as nat));
    let out = header(
        out,
        "kimmy_sync_serve_passed_entries_total"@,
        help::H_SYNC_SERVE_PASSED_ENTRIES_TOTAL@,
        "counter"@,
    );
    let out = line(out, "kimmy_sync_serve_passed_entries_total"@, decimal(serve.passed as nat));
    let out = header(
        out,
        "kimmy_sync_serve_walk_read_seconds_total"@,
        help::H_SYNC_SERVE_WALK_READ_SECONDS_TOTAL@,
        "counter"@,
    );
    let out = line(
        out,
        "kimmy_sync_serve_walk_read_seconds_total"@,
        fixed_point(serve.read_ns as nat, 9),
    );
    let out = header(
        out,
        "kimmy_sync_serve_walk_read_bytes_total"@,
        help::H_SYNC_SERVE_WALK_READ_BYTES_TOTAL@,
        "counter"@,
    );
    let out = line(
        out,
        "kimmy_sync_serve_walk_read_bytes_total"@,
        decimal(serve.read_bytes as nat),
    );
    let out = header(
        out,
        "kimmy_sync_serve_walk_seconds"@,
        help::H_SYNC_SERVE_WALK_SECONDS@,
        "histogram"@,
    );
    histogram(
        out,
        "kimmy_sync_serve_walk_seconds"@,
        ""@,
        SERVE_WALK_BUCKETS_US@,
        serve.walk_buckets@,
        serve.windows,
        serve.walk_sum_us,
    )
}

fn render_sync_serve(out: &mut String, serve: &ServeSnapshot)
    ensures
        final(out)@ == sync_serve(old(out)@, *serve),
{
    reveal(sync_serve);
    push_header(
        out,
        "kimmy_sync_served_windows_total",
        help::H_SYNC_SERVED_WINDOWS_TOTAL,
        "counter",
    );
    push_count(out, "kimmy_sync_served_windows_total", serve.windows);
    push_header(
        out,
        "kimmy_sync_served_entries_total",
        help::H_SYNC_SERVED_ENTRIES_TOTAL,
        "counter",
    );
    push_count(out, "kimmy_sync_served_entries_total", serve.entries);
    push_header(
        out,
        "kimmy_sync_serve_passed_entries_total",
        help::H_SYNC_SERVE_PASSED_ENTRIES_TOTAL,
        "counter",
    );
    push_count(out, "kimmy_sync_serve_passed_entries_total", serve.passed);
    push_header(
        out,
        "kimmy_sync_serve_walk_read_seconds_total",
        help::H_SYNC_SERVE_WALK_READ_SECONDS_TOTAL,
        "counter",
    );
    push_fraction(out, "kimmy_sync_serve_walk_read_seconds_total", serve.read_ns, 9);
    push_header(
        out,
        "kimmy_sync_serve_walk_read_bytes_total",
        help::H_SYNC_SERVE_WALK_READ_BYTES_TOTAL,
        "counter",
    );
    push_count(out, "kimmy_sync_serve_walk_read_bytes_total", serve.read_bytes);
    push_header(
        out,
        "kimmy_sync_serve_walk_seconds",
        help::H_SYNC_SERVE_WALK_SECONDS,
        "histogram",
    );
    push_histogram(
        out,
        "kimmy_sync_serve_walk_seconds",
        "",
        &SERVE_WALK_BUCKETS_US,
        &serve.walk_buckets,
        serve.windows,
        serve.walk_sum_us,
    );
}

/// The latency histogram.
#[verifier::opaque]
pub open spec fn latency(out: Seq<char>, s: MetricsSnapshot, buckets: Seq<u64>) -> Seq<char> {
    let name = "kimmy_request_duration_seconds"@;
    let out = header(out, name, help::H_REQUEST_DURATION_SECONDS@, "histogram"@);
    histogram(out, name, ""@, LATENCY_BUCKETS_US@, buckets, s.latency_count, s.latency_sum_us)
}

/// The backup-duration histogram. Its count is the backup counter.
#[verifier::opaque]
pub open spec fn backup_duration(
    out: Seq<char>,
    s: MetricsSnapshot,
    buckets: Seq<u64>,
) -> Seq<char> {
    let name = "kimmy_backup_duration_seconds"@;
    let out = header(out, name, help::H_BACKUP_DURATION_SECONDS@, "histogram"@);
    histogram(out, name, ""@, BACKUP_BUCKETS_US@, buckets, s.backups, s.backup_duration_sum_us)
}

/// The whole page, from a snapshot and from what only the page shows: the
/// buckets of the histograms, and the tasks' retries. Every number that the
/// snapshot also carries is the snapshot's.
pub open spec fn page(
    s: MetricsSnapshot,
    latency_buckets: Seq<u64>,
    backup_buckets: Seq<u64>,
    wait: WriterWaitSnapshot,
    hold: WriterHoldSnapshot,
    retries: Seq<u64>,
) -> Seq<char> {
    let out = engine_section(Seq::empty(), s, wait, hold);
    let out = process_section(out, s, retries);
    let out = request_section(out, s);
    let out = webhook_section(out, s);
    let out = confirmation_section(out, s);
    let out = sync_section(out, s);
    let out = embed_section(out, s);
    let out = latency(out, s, latency_buckets);
    let out = backup_duration(out, s, backup_buckets);
    let out = sync_pulls(out, s.sync_pulls);
    sync_serve(out, s.sync_serve)
}

impl Metrics {
    fn render_latency(&self, out: &mut String, s: &MetricsSnapshot)
        ensures
            final(out)@ == latency(old(out)@, *s, self.latency_buckets@),
    {
        reveal(latency);
        let name = "kimmy_request_duration_seconds";
        push_header(out, name, help::H_REQUEST_DURATION_SECONDS, "histogram");
        push_histogram(
            out,
            name,
            "",
            &LATENCY_BUCKETS_US,
            &self.latency_buckets,
            s.latency_count,
            s.latency_sum_us,
        );
    }

    fn render_backup_duration(&self, out: &mut String, s: &MetricsSnapshot)
        ensures
            final(out)@ == backup_duration(old(out)@, *s, self.backup_buckets@),
    {
        reveal(backup_duration);
        let name = "kimmy_backup_duration_seconds";
        push_header(out, name, help::H_BACKUP_DURATION_SECONDS, "histogram");
        push_histogram(
            out,
            name,
            "",
            &BACKUP_BUCKETS_US,
            &self.backup_buckets,
            s.backups,
            s.backup_duration_sum_us,
        );
    }

    /// Render the whole page: the engine's readings first, then the process
    /// counters, with every age measured against `now`.
    ///
    /// The page shows what a snapshot of the same moment reads. Rendering it
    /// clears the page's own stall mark and changes nothing else. Every line of it
    /// is a comment or a sample, and every series is there.
    pub fn render_with_at(
        &mut self,
        readings: &StorageReadings,
        live: &LiveReadings,
        now: u64,
    ) -> (text: String)
        ensures
            *final(self) == (Metrics { runtime_stall_us: 0, ..*old(self) }),
            forall|s: MetricsSnapshot| #[trigger]
                old(self).reads_as(*readings, *live, now, s) ==> text@ == page(
                    s,
                    old(self).latency_buckets@,
                    old(self).backup_buckets@,
                    readings.writer_wait,
                    readings.writer_hold,
                    live.task_retries@,
                ),
            parseable(text@),
            has_every_series(text@),
            exists|s: MetricsSnapshot| #[trigger]
                old(self).reads_as(*readings, *live, now, s) && shows_every_value(
                    text@,
                    s,
                    old(self).latency_buckets@,
                    old(self).backup_buckets@,
                    readings.writer_wait,
                    readings.writer_hold,
                    live.task_retries@,
                ),
    {
        let s = self.snapshot_with_at(readings, live, now);
        self.take_runtime_stall_us();
        let mut out = String::new();
        render_engine_section(&mut out, &s, &readings.writer_wait, &readings.writer_hold);
        render_process_section(&mut out, &s, &live.task_retries);
        render_request_section(&mut out, &s);
        render_webhook_section(&mut out, &s);
        render_confirmation_section(&mut out, &s);
        render_sync_section(&mut out, &s);
        render_embed_section(&mut out, &s);
        self.render_latency(&mut out, &s);
        self.render_backup_duration(&mut out, &s);
        render_sync_pulls(&mut out, &s.sync_pulls);
        render_sync_serve(&mut out, &s.sync_serve);
        proof {
            every_line_is_a_comment_or_a_sample(
                s,
                old(self).latency_buckets@,
                old(self).backup_buckets@,
                readings.writer_wait,
                readings.writer_hold,
                live.task_retries@,
            );
            every_series_is_there(
                s,
                old(self).latency_buckets@,
                old(self).backup_buckets@,
                readings.writer_wait,
                readings.writer_hold,
                live.task_retries@,
            );
            every_value_stands_behind_its_name(
                s,
                old(self).latency_buckets@,
                old(self).backup_buckets@,
                readings.writer_wait,
                readings.writer_hold,
                live.task_retries@,
            );
            assert forall|other: MetricsSnapshot| #[trigger]
                old(self).reads_as(*readings, *live, now, other) implies other == s by {
                assert(other.task_progress_age_secs =~= s.task_progress_age_secs);
                assert(other.embed_transport =~= s.embed_transport);
            }
        }
        out
    }

    /// The page of a node whose engine reads zero everywhere and whose process
    /// reports nothing, at `now`.
    pub fn render_at(&mut self, now: u64) -> (text: String)
        ensures
            *final(self) == (Metrics { runtime_stall_us: 0, ..*old(self) }),
            exists|readings: StorageReadings, live: LiveReadings|
                {
                    &&& readings.all_zero()
                    &&& live.clock == now && live.worker is None && live.purge_progress is None
                    &&& super::zeros(live.task_retries@)
                    &&& live.provider_requests == 0 && live.provider_tokens == 0
                    &&& forall|s: MetricsSnapshot| #[trigger]
                        old(self).reads_as(readings, live, now, s) ==> text@ == page(
                            s,
                            old(self).latency_buckets@,
                            old(self).backup_buckets@,
                            readings.writer_wait,
                            readings.writer_hold,
                            live.task_retries@,
                        )
                },
            parseable(text@),
            has_every_series(text@),
    {
        self.render_with_at(&StorageReadings::default(), &LiveReadings::at(now), now)
    }
}

} // verus!
