use log_channel::directory::{Channel, ChannelDirectory};
use log_channel::response::{check_failed_message, set_failed_message, AddOutcome, RemoveOutcome};
use log_channel::text::starts_with_partial;

fn directory_with(rows: &[(i64, i64, &str)]) -> ChannelDirectory {
    let mut d = ChannelDirectory::new();
    for (guild_id, channel_id, name) in rows {
        assert!(d.sync_channel(*guild_id, *channel_id, String::from(*name)));
    }
    d
}

fn flagged_rows(d: &ChannelDirectory) -> Vec<(i64, i64)> {
    let mut flagged = Vec::new();
    for row in d.rows() {
        if row.logging_channel {
            flagged.push((row.guild_id, row.channel_id));
        }
    }
    flagged
}

fn snapshot(d: &ChannelDirectory) -> Vec<(i64, i64, String, bool)> {
    let mut rows = Vec::new();
    for row in d.rows() {
        rows.push((
            row.guild_id,
            row.channel_id,
            row.channel_name.clone(),
            row.logging_channel,
        ));
    }
    rows
}

fn assert_at_most_one_per_guild(d: &ChannelDirectory) {
    let flagged = flagged_rows(d);
    for (guild_a, _) in &flagged {
        let mut count = 0;
        for (guild_b, _) in &flagged {
            if guild_a == guild_b {
                count += 1;
            }
        }
        assert_eq!(count, 1, "guild {} has {} logging channels", guild_a, count);
    }
}

#[test]
fn example_scenario() {
    let mut d = directory_with(&[(42, 100, "general"), (42, 101, "logs")]);

    let first = d.add(42, 101);
    match &first {
        AddOutcome::Registered { rows_affected } => assert_eq!(*rows_affected, 1),
        AddOutcome::AlreadyRegistered { .. } => panic!("expected a fresh registration"),
    }
    assert_eq!(first.user_message(), "Set logging channel successfully");
    assert_eq!(flagged_rows(&d), vec![(42, 101)]);

    let conflict = d.add(42, 100);
    match &conflict {
        AddOutcome::AlreadyRegistered { existing } => {
            assert_eq!(existing.channel_id, 101);
            assert_eq!(existing.channel_name, "logs");
        }
        AddOutcome::Registered { .. } => panic!("expected a conflict"),
    }
    assert_eq!(conflict.user_message(), "Logging channel already registered");
    assert_eq!(flagged_rows(&d), vec![(42, 101)]);

    let removed = d.remove(42);
    match &removed {
        RemoveOutcome::Removed { rows_affected } => assert_eq!(*rows_affected, 1),
        RemoveOutcome::NothingToRemove => panic!("expected a removal"),
    }
    assert_eq!(
        removed.user_message(),
        "Logging channel was successfully removed."
    );
    assert!(flagged_rows(&d).is_empty());

    let nothing = d.remove(42);
    assert!(matches!(nothing, RemoveOutcome::NothingToRemove));
    assert_eq!(
        nothing.user_message(),
        "No logging channel to deregister for this guild!"
    );
}

#[test]
fn add_sets_only_the_target_channel() {
    let mut d = directory_with(&[(7, 1, "a"), (7, 2, "b"), (7, 3, "c"), (9, 1, "other")]);
    let outcome = d.add(7, 2);
    assert!(matches!(
        outcome,
        AddOutcome::Registered { rows_affected: 1 }
    ));
    assert_eq!(flagged_rows(&d), vec![(7, 2)]);
}

#[test]
fn add_conflict_leaves_directory_unchanged() {
    let mut d = directory_with(&[(5, 10, "general"), (5, 11, "logs")]);
    assert!(matches!(d.add(5, 11), AddOutcome::Registered { .. }));
    let before = snapshot(&d);
    let outcome = d.add(5, 10);
    assert!(matches!(outcome, AddOutcome::AlreadyRegistered { .. }));
    assert_eq!(snapshot(&d), before);
}

#[test]
fn add_unknown_channel_affects_no_rows() {
    let mut d = directory_with(&[(7, 1, "a"), (7, 2, "b")]);
    let outcome = d.add(7, 999);
    match outcome {
        AddOutcome::Registered { rows_affected } => assert_eq!(rows_affected, 0),
        AddOutcome::AlreadyRegistered { .. } => panic!("expected no conflict"),
    }
    assert!(flagged_rows(&d).is_empty());
}

#[test]
fn add_does_not_touch_other_guilds() {
    let mut d = directory_with(&[(1, 10, "a"), (2, 10, "b")]);
    assert!(matches!(d.add(1, 10), AddOutcome::Registered { .. }));
    assert_eq!(flagged_rows(&d), vec![(1, 10)]);
    assert!(matches!(d.add(2, 10), AddOutcome::Registered { .. }));
    assert_eq!(flagged_rows(&d), vec![(1, 10), (2, 10)]);
}

#[test]
fn remove_twice_reports_nothing_the_second_time() {
    let mut d = directory_with(&[(3, 30, "logs")]);
    assert!(matches!(d.add(3, 30), AddOutcome::Registered { .. }));
    assert!(matches!(
        d.remove(3),
        RemoveOutcome::Removed { rows_affected: 1 }
    ));
    assert!(matches!(d.remove(3), RemoveOutcome::NothingToRemove));
    assert!(matches!(d.remove(3), RemoveOutcome::NothingToRemove));
}

#[test]
fn remove_on_empty_guild_reports_nothing() {
    let mut d = directory_with(&[(3, 30, "logs")]);
    assert!(matches!(d.remove(3), RemoveOutcome::NothingToRemove));
    assert!(matches!(d.remove(999), RemoveOutcome::NothingToRemove));
}

#[test]
fn check_existing_finds_the_registered_channel() {
    let mut d = directory_with(&[(42, 100, "general"), (42, 101, "logs")]);
    assert!(d.check_existing_log_channel(42).is_none());
    assert!(matches!(d.add(42, 101), AddOutcome::Registered { .. }));
    let found = d.check_existing_log_channel(42).expect("a logging channel");
    assert_eq!(found.guild_id, 42);
    assert_eq!(found.channel_id, 101);
    assert_eq!(found.channel_name, "logs");
    assert!(found.logging_channel);
    assert!(d.check_existing_log_channel(43).is_none());
}

#[test]
fn invariant_holds_after_sequences_of_commands() {
    let mut d = directory_with(&[
        (1, 10, "general"),
        (1, 11, "logs"),
        (2, 20, "general"),
        (2, 21, "audit"),
    ]);
    assert_at_most_one_per_guild(&d);
    d.add(1, 10);
    assert_at_most_one_per_guild(&d);
    d.add(1, 11);
    assert_at_most_one_per_guild(&d);
    d.add(2, 21);
    assert_at_most_one_per_guild(&d);
    d.remove(1);
    assert_at_most_one_per_guild(&d);
    d.add(1, 11);
    assert_at_most_one_per_guild(&d);
    d.remove(2);
    d.remove(2);
    assert_at_most_one_per_guild(&d);
    assert_eq!(flagged_rows(&d), vec![(1, 11)]);
}

#[test]
fn autocomplete_with_empty_partial_returns_all_guild_names() {
    let d = directory_with(&[
        (42, 1, "general"),
        (42, 2, "gen-chat"),
        (42, 3, "mygen"),
        (9, 4, "general"),
    ]);
    let names = d.autocomplete_channel(42, "");
    assert_eq!(names, vec!["general", "gen-chat", "mygen"]);
}

#[test]
fn autocomplete_filters_by_prefix() {
    let d = directory_with(&[
        (42, 1, "general"),
        (42, 2, "gen-chat"),
        (42, 3, "mygen"),
        (9, 4, "genesis"),
    ]);
    let names = d.autocomplete_channel(42, "gen");
    assert_eq!(names, vec!["general", "gen-chat"]);
    let none: Vec<String> = d.autocomplete_channel(42, "zzz");
    assert!(none.is_empty());
}

#[test]
fn prefix_match_is_anchored_and_case_sensitive() {
    assert!(starts_with_partial("general", "gen"));
    assert!(starts_with_partial("general", ""));
    assert!(starts_with_partial("general", "general"));
    assert!(!starts_with_partial("mygen", "gen"));
    assert!(!starts_with_partial("general", "General"));
    assert!(!starts_with_partial("gen", "general"));
}

#[test]
fn sync_rejects_a_known_channel_and_keeps_rows() {
    let mut d = directory_with(&[(1, 10, "general")]);
    assert!(!d.sync_channel(1, 10, String::from("renamed")));
    assert_eq!(d.rows().len(), 1);
    assert_eq!(d.rows()[0].channel_name, "general");
    assert!(d.sync_channel(2, 10, String::from("general")));
    assert_eq!(d.rows().len(), 2);
}

#[test]
fn failure_messages_match_the_command_replies() {
    assert_eq!(
        check_failed_message(),
        "Error checking existing logging channel"
    );
    assert_eq!(set_failed_message(), "Unable to set logging channel!");
}

#[test]
fn cloned_rows_keep_their_fields() {
    let d = directory_with(&[(6, 60, "general")]);
    let row: Channel = d.rows()[0].clone();
    assert_eq!(row.guild_id, 6);
    assert_eq!(row.channel_id, 60);
    assert_eq!(row.channel_name, "general");
    assert!(!row.logging_channel);
}
