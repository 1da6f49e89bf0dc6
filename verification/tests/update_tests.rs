use inc_version::triggers::{check_triggers, FileTime};
use inc_version::update::{
    format_message, full_path_message, not_an_int_message, plan_update, stat_failure_message,
    stat_failure_message_for, update_version_file, Update,
};
use inc_version::version::Field;

fn content(s: &str) -> Result<String, String> {
    Ok(s.to_string())
}

fn at_path(s: &str) -> Option<String> {
    Some(s.to_string())
}

#[test]
fn messages_have_the_exact_words() {
    assert_eq!(
        format_message(),
        "version file does not contain a value in the format 1.2.3"
    );
    assert_eq!(
        not_an_int_message(Field::Major, "a"),
        "major version number is not an int: `a`"
    );
    assert_eq!(
        not_an_int_message(Field::Minor, ""),
        "minor version number is not an int: ``"
    );
    assert_eq!(
        not_an_int_message(Field::Build, "3\n"),
        "build version number is not an int: `3\n`"
    );
    assert_eq!(full_path_message("/srv/version.txt"), "full path: /srv/version.txt");
}

#[test]
fn well_formed_content_is_rewritten() {
    assert_eq!(
        plan_update(at_path("/srv/version.txt"), content("1.2.3")),
        Update::Write("1.2.4".to_string())
    );
}

#[test]
fn two_pieces_are_reported_and_nothing_is_written() {
    assert_eq!(
        plan_update(at_path("/srv/version.txt"), content("1.2")),
        Update::Report(vec![
            "version file does not contain a value in the format 1.2.3".to_string()
        ])
    );
}

#[test]
fn bad_build_piece_is_reported_and_nothing_is_written() {
    assert_eq!(
        plan_update(at_path("/srv/version.txt"), content("1.2.x")),
        Update::Report(vec!["build version number is not an int: `x`".to_string()])
    );
}

#[test]
fn bad_major_and_minor_pieces_are_reported() {
    assert_eq!(
        plan_update(at_path("/srv/version.txt"), content("v1.2.3")),
        Update::Report(vec!["major version number is not an int: `v1`".to_string()])
    );
    assert_eq!(
        plan_update(at_path("/srv/version.txt"), content("1.two.3")),
        Update::Report(vec!["minor version number is not an int: `two`".to_string()])
    );
}

#[test]
fn failed_read_is_reported_with_error_and_path() {
    let read: Result<String, String> =
        Err("No such file or directory (os error 2)".to_string());
    assert_eq!(
        plan_update(at_path("/srv/version.txt"), read),
        Update::Report(vec![
            "No such file or directory (os error 2)".to_string(),
            "/srv/version.txt".to_string(),
        ])
    );
}

#[test]
fn largest_build_number_is_not_rewritten() {
    assert_eq!(
        plan_update(at_path("/srv/version.txt"), content("1.2.2147483647")),
        Update::BuildOverflow
    );
}

#[test]
fn missing_absolute_path_stops_everything() {
    assert_eq!(plan_update(None, content("1.2.3")), Update::NoAbsolutePath);
    assert_eq!(plan_update(None, Err("gone".to_string())), Update::NoAbsolutePath);
}

#[test]
fn update_resolves_the_path_before_reporting() {
    let read: Result<String, String> = Err("gone".to_string());
    assert_eq!(
        update_version_file("/srv/build/../conf/./version.txt", read),
        Update::Report(vec!["gone".to_string(), "/srv/conf/version.txt".to_string()])
    );
}

#[test]
fn update_rewrites_well_formed_content() {
    assert_eq!(
        update_version_file("/srv/version.txt", content("7.8.9")),
        Update::Write("7.8.10".to_string())
    );
}

#[test]
fn stat_failure_names_the_absolute_path() {
    assert_eq!(
        stat_failure_message("/srv/build/../out/./app.exe"),
        Some("full path: /srv/out/app.exe".to_string())
    );
}

#[test]
fn newer_trigger_bumps_1_4_9_to_1_4_10() {
    let version_time = FileTime { nanos: 1_700_000_000_000_000_000 };
    let triggers = vec![FileTime { nanos: 1_700_000_005_000_000_000 }];
    assert!(check_triggers(version_time, &triggers));
    assert_eq!(
        update_version_file("/srv/version.txt", content("1.4.9")),
        Update::Write("1.4.10".to_string())
    );
}

#[test]
fn no_triggers_leave_2_0_0_alone() {
    let version_time = FileTime { nanos: 1_700_000_000_000_000_000 };
    assert!(!check_triggers(version_time, &Vec::new()));
}

#[test]
fn missing_version_file_is_reported_not_created() {
    let read: Result<String, String> =
        Err("No such file or directory (os error 2)".to_string());
    let update = update_version_file("/srv/absent/version.txt", read);
    assert_eq!(
        update,
        Update::Report(vec![
            "No such file or directory (os error 2)".to_string(),
            "/srv/absent/version.txt".to_string(),
        ])
    );
}

#[test]
fn stat_failure_message_follows_the_absolute_path() {
    assert_eq!(
        stat_failure_message_for(Some("/srv/out/app.exe".to_string())),
        Some("full path: /srv/out/app.exe".to_string())
    );
    assert_eq!(stat_failure_message_for(Some(String::new())), Some("full path: ".to_string()));
    assert_eq!(stat_failure_message_for(None), None);
}
