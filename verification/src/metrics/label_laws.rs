//! How series, their labels and their buckets are named.

use vstd::prelude::*;
use vstd::string::*;

use super::page::{holder_label, holder_name, label_alone, then_label};
use super::rows::{bucket_name, bucket_prefix, label_name};
use super::{
    BACKUP_BUCKETS_US, ENTRY_WAIT_BUCKETS_US, HOLD_COMPONENTS, HOLD_PHASES, LATENCY_BUCKETS_US,
    PROGRESS_WRITERS, PULL_BUCKETS_US, SERVE_WALK_BUCKETS_US, TASKS, WRITER_HOLDERS,
    WRITER_HOLD_BUCKETS_US, WRITER_WAIT_BUCKETS_US,
};
use crate::text::fixed_point;

verus! {

/// A sample's name: a series, and its labels in braces, each with its value quoted.
pub open spec fn labelled(series: Seq<char>, labels: Seq<(Seq<char>, Seq<char>)>) -> Seq<char> {
    series + "{"@ + quoted_labels(labels, labels.len()) + "}"@
}

/// The first `n` labels, with commas between them.
pub open spec fn quoted_labels(labels: Seq<(Seq<char>, Seq<char>)>, n: nat) -> Seq<char>
    decreases n,
{
    if n == 0 {
        Seq::empty()
    } else {
        let (label, value) = labels[n - 1];
        quoted_labels(labels, (n - 1) as nat) + (if n == 1 {
            Seq::empty()
        } else {
            ","@
        }) + label + "=\""@ + value + "\""@
    }
}

/// A holder's sample is named by the holder, and by a second label where it has one.
pub proof fn a_holders_sample_is_named_by_it(
    series: Seq<char>,
    slot: int,
    key: Seq<char>,
    value: Seq<char>,
)
    requires
        0 <= slot < 12,
    ensures
        holder_name(series, slot, Seq::empty()) == labelled(
            series,
            seq![("holder"@, WRITER_HOLDERS@[slot]@)],
        ),
        holder_name(series, slot, then_label(key, value)) == labelled(
            series,
            seq![("holder"@, WRITER_HOLDERS@[slot]@), (key, value)],
        ),
{
    lemma_label_literals();
    let holder = WRITER_HOLDERS@[slot]@;
    let one = seq![("holder"@, holder)];
    let two = seq![("holder"@, holder), (key, value)];
    reveal_with_fuel(quoted_labels, 3);
    assert(two[0] == ("holder"@, holder) && two[1] == (key, value) && one[0] == ("holder"@, holder));
    assert(quoted_labels(one, 1) =~= "holder=\""@ + holder + "\""@);
    assert(quoted_labels(two, 1) =~= "holder=\""@ + holder + "\""@);
    assert(holder_name(series, slot, Seq::empty()) =~= labelled(series, one));
    assert(holder_name(series, slot, then_label(key, value)) =~= labelled(series, two));
}

/// A bucket is named by its bound in seconds, behind the label of its histogram where
/// that has one; the histogram's sum and count carry that label alone.
pub proof fn a_bucket_is_named_by_its_bound(
    series: Seq<char>,
    key: Seq<char>,
    value: Seq<char>,
    bound: u64,
)
    requires
        key.len() > 0,
    ensures
        bucket_name(bucket_prefix(series, Seq::empty()), bound) == labelled(
            series + "_bucket"@,
            seq![("le"@, fixed_point(bound as nat, 6))],
        ),
        bucket_name(bucket_prefix(series, key + "=\""@ + value + "\""@), bound) == labelled(
            series + "_bucket"@,
            seq![(key, value), ("le"@, fixed_point(bound as nat, 6))],
        ),
        series + label_alone(Seq::empty()) == series,
        series + label_alone(key + "=\""@ + value + "\""@) == labelled(
            series,
            seq![(key, value)],
        ),
{
    lemma_label_literals();
    let at = fixed_point(bound as nat, 6);
    let text = key + "=\""@ + value + "\""@;
    let one = seq![("le"@, at)];
    let two = seq![(key, value), ("le"@, at)];
    let own = seq![(key, value)];
    reveal_with_fuel(quoted_labels, 3);
    assert(one[0] == ("le"@, at) && two[0] == (key, value) && two[1] == ("le"@, at) && own[0] == (
        key,
        value,
    ));
    assert(quoted_labels(own, 1) =~= text);
    assert(quoted_labels(two, 1) =~= text);
    assert(bucket_name(bucket_prefix(series, Seq::empty()), bound) =~= labelled(
        series + "_bucket"@,
        one,
    ));
    assert(bucket_name(bucket_prefix(series, text), bound) =~= labelled(series + "_bucket"@, two));
    assert(series + label_alone(Seq::empty()) =~= series);
    assert(series + label_alone(text) =~= labelled(series, own));
}

/// A label that a series starts is closed behind its value.
pub proof fn a_label_is_closed_behind_its_value(series: Seq<char>, key: Seq<char>, value: Seq<char>)
    ensures
        label_name(series + "{"@ + key + "=\""@, value) == labelled(series, seq![(key, value)]),
        forall|slot: int|
            #![trigger holder_label(slot)]
            0 <= slot < 12 ==> holder_label(slot) == quoted_labels(
                seq![("holder"@, WRITER_HOLDERS@[slot]@)],
                1,
            ),
{
    lemma_label_literals();
    let own = seq![(key, value)];
    reveal_with_fuel(quoted_labels, 2);
    assert(own[0] == (key, value));
    assert(label_name(series + "{"@ + key + "=\""@, value) =~= labelled(series, own));
    assert forall|slot: int|
        #![trigger holder_label(slot)]
        0 <= slot < 12 implies holder_label(slot) == quoted_labels(
        seq![("holder"@, WRITER_HOLDERS@[slot]@)],
        1,
    ) by {
        let of = seq![("holder"@, WRITER_HOLDERS@[slot]@)];
        assert(of[0] == ("holder"@, WRITER_HOLDERS@[slot]@));
        assert(holder_label(slot) =~= quoted_labels(of, 1));
    }
}

proof fn lemma_label_literals()
    ensures
        "holder"@ + "=\""@ == "holder=\""@,
        "{"@ + "holder=\""@ == "{holder=\""@,
        "_bucket"@ + "{"@ == "_bucket{"@,
        "le"@ + "=\""@ == "le=\""@,
        "\""@ + "}"@ == "\"}"@,
{
    reveal_strlit("holder");
    reveal_strlit("=\"");
    reveal_strlit("holder=\"");
    reveal_strlit("{");
    reveal_strlit("{holder=\"");
    reveal_strlit("_bucket");
    reveal_strlit("_bucket{");
    reveal_strlit("le");
    reveal_strlit("le=\"");
    reveal_strlit("\"");
    reveal_strlit("}");
    reveal_strlit("\"}");
    assert("holder"@ + "=\""@ =~= "holder=\""@);
    assert("{"@ + "holder=\""@ =~= "{holder=\""@);
    assert("_bucket"@ + "{"@ =~= "_bucket{"@);
    assert("le"@ + "=\""@ =~= "le=\""@);
    assert("\""@ + "}"@ =~= "\"}"@);
}

/// What each kind of holder, part of a hold, task and writer is called, by its place.
pub proof fn every_label_has_its_word()
    ensures
        WRITER_HOLDERS@[0]@ == "write"@,
        WRITER_HOLDERS@[1]@ == "bulk"@,
        WRITER_HOLDERS@[2]@ == "ddl"@,
        WRITER_HOLDERS@[3]@ == "index_build"@,
        WRITER_HOLDERS@[4]@ == "drop"@,
        WRITER_HOLDERS@[5]@ == "replication"@,
        WRITER_HOLDERS@[6]@ == "repair"@,
        WRITER_HOLDERS@[7]@ == "retention"@,
        WRITER_HOLDERS@[8]@ == "expiry"@,
        WRITER_HOLDERS@[9]@ == "embedding"@,
        WRITER_HOLDERS@[10]@ == "durability"@,
        WRITER_HOLDERS@[11]@ == "rewind"@,
        HOLD_COMPONENTS@[0]@ == "read"@,
        HOLD_COMPONENTS@[1]@ == "write"@,
        HOLD_COMPONENTS@[2]@ == "sync"@,
        HOLD_COMPONENTS@[3]@ == "cpu"@,
        HOLD_COMPONENTS@[4]@ == "off_cpu"@,
        HOLD_PHASES@[0]@ == "work"@,
        HOLD_PHASES@[1]@ == "counts"@,
        HOLD_PHASES@[2]@ == "commit"@,
        TASKS@[0]@ == "cert_reloader"@,
        TASKS@[1]@ == "drop_purger"@,
        TASKS@[2]@ == "embedding_worker"@,
        TASKS@[3]@ == "jwks_refresher"@,
        TASKS@[4]@ == "membership"@,
        TASKS@[5]@ == "membership_announce"@,
        TASKS@[6]@ == "membership_inbound"@,
        TASKS@[7]@ == "membership_timer"@,
        TASKS@[8]@ == "replication"@,
        TASKS@[9]@ == "replication_server"@,
        TASKS@[10]@ == "retention_collector"@,
        TASKS@[11]@ == "session_invalidator"@,
        TASKS@[12]@ == "stall_probe"@,
        TASKS@[13]@ == "ttl_expiry"@,
        TASKS@[14]@ == "vector_index_invalidator"@,
        TASKS@[15]@ == "webhook_dispatcher"@,
        PROGRESS_WRITERS@[0]@ == "drop_purger"@,
        PROGRESS_WRITERS@[1]@ == "embedding_worker"@,
        PROGRESS_WRITERS@[2]@ == "replication"@,
        PROGRESS_WRITERS@[3]@ == "stall_probe"@,
        PROGRESS_WRITERS@[4]@ == "webhook_dispatcher"@,
{
}

/// The bounds of each histogram, in microseconds, rising.
pub proof fn every_histogram_has_its_bounds()
    ensures
        BACKUP_BUCKETS_US@ == seq![1_000_000u64, 5_000_000, 15_000_000, 30_000_000, 60_000_000, 120_000_000, 300_000_000, 600_000_000, 1_800_000_000, 3_600_000_000],
        LATENCY_BUCKETS_US@ == seq![100u64, 250, 500, 1_000, 2_500, 5_000, 10_000, 25_000, 50_000, 100_000, 1_000_000, 10_000_000],
        WRITER_WAIT_BUCKETS_US@ == seq![1_000u64, 5_000, 25_000, 100_000, 500_000, 1_000_000, 5_000_000, 30_000_000],
        WRITER_HOLD_BUCKETS_US@ == seq![1_000u64, 10_000, 100_000, 1_000_000, 5_000_000, 30_000_000, 300_000_000],
        PULL_BUCKETS_US@ == seq![1_000u64, 5_000, 10_000, 25_000, 50_000, 100_000, 250_000, 500_000, 1_000_000, 2_500_000, 5_000_000, 10_000_000, 30_000_000, 60_000_000, 300_000_000, 900_000_000],
        ENTRY_WAIT_BUCKETS_US@ == seq![100_000u64, 250_000, 500_000, 1_000_000, 2_000_000, 5_000_000, 10_000_000, 30_000_000, 60_000_000, 300_000_000, 3_600_000_000],
        SERVE_WALK_BUCKETS_US@ == seq![100u64, 1_000, 5_000, 10_000, 25_000, 50_000, 100_000, 250_000, 500_000, 1_000_000, 5_000_000, 30_000_000],
        rising(BACKUP_BUCKETS_US@),
        rising(LATENCY_BUCKETS_US@),
        rising(WRITER_WAIT_BUCKETS_US@),
        rising(WRITER_HOLD_BUCKETS_US@),
        rising(PULL_BUCKETS_US@),
        rising(ENTRY_WAIT_BUCKETS_US@),
        rising(SERVE_WALK_BUCKETS_US@),
{
    assert(BACKUP_BUCKETS_US@ =~= seq![1_000_000u64, 5_000_000, 15_000_000, 30_000_000, 60_000_000, 120_000_000, 300_000_000, 600_000_000, 1_800_000_000, 3_600_000_000]);
    assert(LATENCY_BUCKETS_US@ =~= seq![100u64, 250, 500, 1_000, 2_500, 5_000, 10_000, 25_000, 50_000, 100_000, 1_000_000, 10_000_000]);
    assert(WRITER_WAIT_BUCKETS_US@ =~= seq![1_000u64, 5_000, 25_000, 100_000, 500_000, 1_000_000, 5_000_000, 30_000_000]);
    assert(WRITER_HOLD_BUCKETS_US@ =~= seq![1_000u64, 10_000, 100_000, 1_000_000, 5_000_000, 30_000_000, 300_000_000]);
    assert(PULL_BUCKETS_US@ =~= seq![1_000u64, 5_000, 10_000, 25_000, 50_000, 100_000, 250_000, 500_000, 1_000_000, 2_500_000, 5_000_000, 10_000_000, 30_000_000, 60_000_000, 300_000_000, 900_000_000]);
    assert(ENTRY_WAIT_BUCKETS_US@ =~= seq![100_000u64, 250_000, 500_000, 1_000_000, 2_000_000, 5_000_000, 10_000_000, 30_000_000, 60_000_000, 300_000_000, 3_600_000_000]);
    assert(SERVE_WALK_BUCKETS_US@ =~= seq![100u64, 1_000, 5_000, 10_000, 25_000, 50_000, 100_000, 250_000, 500_000, 1_000_000, 5_000_000, 30_000_000]);
}

/// Whether each bound is above the one before.
pub open spec fn rising(bounds: Seq<u64>) -> bool {
    forall|i: int| 0 < i < bounds.len() ==> bounds[i - 1] < #[trigger] bounds[i]
}

} // verus!
