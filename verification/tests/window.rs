use std::time::{Duration, SystemTime};

use dermixen_app::paths::file_name;
use dermixen_app::status::{capitalized, how_long_ago, not_a_tempo, say_both, track_count};

#[test]
fn a_moment_just_now_was_less_than_a_minute_ago() {
    assert_eq!(
        how_long_ago(Some(SystemTime::now())),
        "less than a minute ago"
    );
}

#[test]
fn a_moment_the_file_system_did_not_report_has_no_age_to_report() {
    assert_eq!(how_long_ago(None), "at a time this machine cannot report");
}

#[test]
fn an_hour_and_a_half_ago_is_reported_in_whole_hours() {
    let then = SystemTime::now() - Duration::from_secs(90 * 60);
    assert_eq!(how_long_ago(Some(then)), "1 hour ago");
    let earlier = SystemTime::now() - Duration::from_secs(3 * 60 * 60);
    assert_eq!(how_long_ago(Some(earlier)), "3 hours ago");
}

#[test]
fn one_track_and_several_are_counted_alike() {
    assert_eq!(track_count(1), "1 track");
    assert_eq!(track_count(4), "4 tracks");
}

#[test]
fn a_track_is_named_in_the_status_line_by_its_file_name() {
    assert_eq!(file_name("/music/goa/lsd.mp3"), "lsd.mp3");
    assert_eq!(file_name("/"), "/");
}

#[test]
fn two_messages_are_shown_as_one_and_either_alone() {
    assert_eq!(
        say_both(
            "The file of 1 track is missing.",
            "Cannot read the autosave."
        ),
        "The file of 1 track is missing. Cannot read the autosave."
    );
    assert_eq!(
        say_both("", "Cannot read the autosave."),
        "Cannot read the autosave."
    );
    assert_eq!(
        say_both("The file of 1 track is missing.", ""),
        "The file of 1 track is missing."
    );
}

#[test]
fn a_reason_from_the_file_system_begins_as_a_sentence() {
    assert_eq!(
        capitalized("cannot write /music/set.dmx: no space left".to_owned()),
        "Cannot write /music/set.dmx: no space left"
    );
    assert_eq!(capitalized(String::new()), "");
}

#[test]
fn an_empty_tempo_field_is_named_as_empty() {
    assert_eq!(not_a_tempo(""), "The tempo field is empty");
    assert_eq!(not_a_tempo("quick"), "quick is not a tempo");
}
