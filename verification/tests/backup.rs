use kimmy_api::backup::{spill_dir, spill_name, SpillStep};

#[test]
fn a_full_disk_names_the_directory_and_the_os_error() {
    let os_error = std::io::Error::from_raw_os_error(28).to_string();
    let message = SpillStep::Writing(os_error.clone()).message("/var/lib/kimmy");
    assert!(message.contains("/var/lib/kimmy"), "{message}");
    assert!(message.contains(&os_error), "{message}");
}

#[test]
fn a_directory_that_cannot_hold_the_file_is_named() {
    let os_error = std::io::Error::from_raw_os_error(2).to_string();
    let message = SpillStep::Creating(os_error.clone()).message("/var/lib/kimmy/not-here");
    assert!(message.contains("/var/lib/kimmy/not-here"), "{message}");
    assert!(message.contains(&os_error), "{message}");
}

#[test]
fn each_step_says_what_it_was_doing() {
    let e = || "no room".to_string();
    assert_eq!(
        SpillStep::Creating(e()).message("d"),
        "spilling a backup into d: creating the file a backup spills into: no room"
    );
    assert_eq!(SpillStep::Walking(e()).message("d"), "spilling a backup into d: no room");
    assert_eq!(
        SpillStep::Writing(e()).message("d"),
        "spilling a backup into d: writing a backup: no room"
    );
    assert_eq!(
        SpillStep::Rewinding(e()).message("d"),
        "spilling a backup into d: rewinding a backup: no room"
    );
}

#[test]
fn a_spill_stands_beside_the_database_under_a_name_of_its_own() {
    assert_eq!(spill_dir(Some("/var/lib/kimmy")), "/var/lib/kimmy");
    assert_eq!(spill_dir(Some("")), ".");
    assert_eq!(spill_dir(None), ".");
    assert_eq!(spill_name(71, 0), ".kimmy-backup-71-0.spill");
    assert_ne!(spill_name(71, 0), spill_name(71, 1));
}
