use std::collections::BTreeSet;

use kimmy_api::expiry::{key, owns_collection, plan, total, Collection, ExpiryOutcome};
use kimmy_api::ownership;

fn node(byte: u8) -> String {
    let pair = format!("{byte:02x}");
    format!(
        "{}-{}-{}-{}-{}",
        pair.repeat(4),
        pair.repeat(2),
        pair.repeat(2),
        pair.repeat(2),
        pair.repeat(6)
    )
}

#[test]
fn exactly_one_node_owns_a_given_collection() {
    let members: Vec<String> = (1..=5).map(node).collect();
    let k = key("shop", "sessions");

    let owners: Vec<&String> =
        members.iter().filter(|m| ownership::owns(&k, m, &members)).collect();
    assert_eq!(owners.len(), 1, "one owner, or expiry amplifies: {owners:?}");
}

#[test]
fn a_single_node_owns_every_collection() {
    let me = node(1);
    let none = vec![];
    for name in ["a", "b", "sessions", "orders"] {
        assert!(ownership::owns(&key("shop", name), &me, &none));
        assert!(owns_collection("shop", name, &me, &none, 0));
    }
}

#[test]
fn collections_spread_across_the_cluster() {
    let members: Vec<String> = (1..=3).map(node).collect();
    let mut seen = BTreeSet::new();
    for i in 0..50 {
        let k = key("shop", &format!("c{i}"));
        for m in &members {
            if ownership::owns(&k, m, &members) {
                seen.insert(m.clone());
            }
        }
    }
    assert!(seen.len() > 1, "every collection hashed to one node: {seen:?}");
}

#[test]
fn the_expiry_key_cannot_collide_with_a_webhook_subscription() {
    assert_ne!(key("shop", "sessions"), "shop.sessions");
    assert!(key("shop", "sessions").starts_with("ttl\0"));
}

#[test]
fn a_node_counts_itself_among_the_candidates() {
    let members: Vec<String> = (1..=5).map(node).collect();
    let me = node(3);
    let others: Vec<String> = members.iter().filter(|m| **m != me).cloned().collect();
    for i in 0..40 {
        let name = format!("c{i}");
        assert_eq!(
            owns_collection("shop", &name, &me, &others, 2),
            owns_collection("shop", &name, &me, &members, 0),
            "listed or not, this node is a candidate"
        );
        assert_eq!(
            owns_collection("shop", &name, &me, &members, 0),
            ownership::owns(&key("shop", &name), &me, &members)
        );
    }
}

fn collection(name: &str, ttl_indexes: &[&str]) -> Collection {
    Collection {
        db: "shop".to_string(),
        name: name.to_string(),
        ttl_indexes: ttl_indexes.iter().map(|s| s.to_string()).collect(),
    }
}

#[test]
fn a_pass_takes_every_expiring_index_of_every_owned_collection() {
    let databases =
        vec![Some(vec![collection("a", &["x", "y"]), collection("b", &[])]), None, Some(vec![])];
    let work = plan(&databases, &node(1), &vec![], 0);
    let taken: Vec<(&str, &str, &str)> = work
        .iter()
        .map(|e| (e.db.as_str(), e.collection.as_str(), e.index.as_str()))
        .collect();
    assert_eq!(taken, vec![("shop", "a", "x"), ("shop", "a", "y")]);
}

#[test]
fn a_pass_adds_up_what_each_index_expired() {
    let one = |deleted, skipped, skipped_filter, truncated| {
        Some(ExpiryOutcome { deleted, skipped, skipped_filter, truncated })
    };
    assert_eq!(
        total(&vec![one(3, 1, 5, false), None, one(4, 0, 6, true)]),
        ExpiryOutcome { deleted: 7, skipped: 1, skipped_filter: 11, truncated: true }
    );
    assert_eq!(
        total(&vec![]),
        ExpiryOutcome { deleted: 0, skipped: 0, skipped_filter: 0, truncated: false }
    );
}
