use std::collections::BTreeSet;

use kimmy_api::ownership::{fnv_of, hash, owner, owns};

fn members(addrs: &[&str]) -> Vec<String> {
    addrs.iter().map(|a| a.to_string()).collect()
}

fn without(set: &[String], gone: &str) -> Vec<String> {
    set.iter().filter(|m| *m != gone).cloned().collect()
}

#[test]
fn every_node_computes_the_same_owner() {
    let set = members(&["10.0.0.1:7900", "10.0.0.2:7900", "10.0.0.3:7900"]);
    for subscription in ["wh_a", "wh_b", "wh_c", "wh_d"] {
        let answers: BTreeSet<_> = (0..5).map(|_| owner(subscription, &set).unwrap()).collect();
        assert_eq!(answers.len(), 1, "{subscription} produced {answers:?}");
    }
}

#[test]
fn exactly_one_node_owns_each_subscription() {
    let set = members(&["10.0.0.1:7900", "10.0.0.2:7900", "10.0.0.3:7900"]);
    for subscription in ["wh_a", "wh_b", "wh_c"] {
        let owners: Vec<_> = set.iter().filter(|m| owns(subscription, m, &set)).collect();
        assert_eq!(owners.len(), 1, "{subscription} owned by {owners:?}");
    }
}

#[test]
fn work_spreads_across_the_cluster() {
    let set = members(&["10.0.0.1:7900", "10.0.0.2:7900", "10.0.0.3:7900"]);
    let used: BTreeSet<String> =
        (0..200).filter_map(|i| owner(&format!("wh_{i}"), &set).cloned()).collect();
    assert_eq!(used.len(), 3, "all three should own some subscriptions, got {used:?}");
}

#[test]
fn a_node_leaving_moves_only_what_it_owned() {
    let before = members(&["10.0.0.1:7900", "10.0.0.2:7900", "10.0.0.3:7900"]);
    let gone = "10.0.0.3:7900";
    let after = without(&before, gone);

    let mut moved = 0;
    let mut owned_by_gone = 0;
    for i in 0..300 {
        let s = format!("wh_{i}");
        let was = owner(&s, &before).unwrap();
        let now = owner(&s, &after).unwrap();
        if was == gone {
            owned_by_gone += 1;
        } else if was != now {
            moved += 1;
        }
    }
    assert!(owned_by_gone > 50, "the departed node should have owned a fair share");
    assert_eq!(
        moved, 0,
        "no subscription owned by a surviving node may move when a different node leaves"
    );
}

#[test]
fn a_node_joining_takes_only_for_itself() {
    let before = members(&["10.0.0.1:7900", "10.0.0.2:7900"]);
    let after = members(&["10.0.0.1:7900", "10.0.0.2:7900", "10.0.0.3:7900"]);
    for i in 0..100 {
        let s = format!("wh_{i}");
        let now = owner(&s, &after).unwrap();
        assert!(now == owner(&s, &before).unwrap() || now == "10.0.0.3:7900");
    }
}

#[test]
fn a_dead_owners_subscriptions_are_taken_over() {
    let before = members(&["10.0.0.1:7900", "10.0.0.2:7900", "10.0.0.3:7900"]);
    let subscription = "wh_orders";
    let dead = owner(subscription, &before).unwrap();

    let after = without(&before, dead);
    let survivor = owner(subscription, &after).expect("someone must take it over");

    assert_ne!(survivor, dead);
    assert!(after.contains(survivor));
    assert!(
        after.iter().filter(|m| owns(subscription, m, &after)).count() == 1,
        "exactly one survivor takes it, not both"
    );
}

#[test]
fn a_single_node_owns_everything() {
    let me = "127.0.0.1:7900";
    assert!(owns("wh_a", me, &vec![]), "an empty member set must not stall delivery");
    assert!(owns("wh_a", me, &members(&["127.0.0.1:7900"])));
}

#[test]
fn a_node_not_in_the_member_set_owns_nothing() {
    let set = members(&["10.0.0.1:7900", "10.0.0.2:7900"]);
    assert!(!owns("wh_a", "10.0.0.9:7900", &set));
}

#[test]
fn the_mapping_is_pinned() {
    assert_eq!(hash("wh_a", "10.0.0.1:7900"), 0x7457_8f08_134a_f3a8);
}

#[test]
fn an_empty_member_set_has_no_owner() {
    assert_eq!(owner("wh_a", &vec![]), None);
}

#[test]
fn the_hash_of_nothing_is_its_offset() {
    assert_eq!(fnv_of(b""), 0xcbf2_9ce4_8422_2325);
    assert_eq!(fnv_of(b"a"), 0xaf63_dc4c_8601_ec8c);
}
