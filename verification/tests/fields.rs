use dermixen_app::fields::{buffer_field_text, parse_buffer_frames, year_bound};

#[test]
fn an_empty_buffer_field_leaves_the_size_to_the_device() {
    assert_eq!(parse_buffer_frames(""), Ok(None));
    assert_eq!(parse_buffer_frames("   "), Ok(None));
}

#[test]
fn a_whole_number_of_frames_is_taken() {
    assert_eq!(parse_buffer_frames(" 512 "), Ok(Some(512)));
    assert_eq!(parse_buffer_frames("+64"), Ok(Some(64)));
    assert_eq!(parse_buffer_frames("4294967295"), Ok(Some(4294967295)));
    assert_eq!(parse_buffer_frames("007"), Ok(Some(7)));
}

#[test]
fn other_text_is_refused_with_what_was_typed() {
    assert_eq!(
        parse_buffer_frames(" lots "),
        Err(
            "The audio buffer takes a whole number of frames from 1 to 4294967295, not \"lots\""
                .to_owned()
        )
    );
    assert!(parse_buffer_frames("0").is_err());
    assert!(parse_buffer_frames("4294967296").is_err());
    assert!(parse_buffer_frames("-5").is_err());
    assert!(parse_buffer_frames("+").is_err());
    assert!(parse_buffer_frames("1.5").is_err());
}

#[test]
fn the_buffer_field_shows_the_setting() {
    assert_eq!(buffer_field_text(Some(1024)), "1024");
    assert_eq!(buffer_field_text(None), "");
}

use dermixen_app::fields::{buffer_note, take_buffer_field};

#[test]
fn reading_the_buffer_field_changes_the_setting_only_for_a_new_size() {
    let same = take_buffer_field(" 512 ", Some(512));
    assert_eq!(same.frames, Some(512));
    assert!(!same.changed);
    assert_eq!(same.text, "512");
    let cleared = take_buffer_field("", Some(512));
    assert_eq!(cleared.frames, None);
    assert!(cleared.changed);
    assert_eq!(cleared.text, "");
    let refused = take_buffer_field("big", Some(256));
    assert_eq!(refused.frames, Some(256));
    assert!(!refused.changed);
    assert_eq!(refused.text, "256");
    assert_eq!(
        refused.problem.as_deref(),
        Some("The audio buffer takes a whole number of frames from 1 to 4294967295, not \"big\"")
    );
    assert_eq!(
        buffer_note(Some(256)),
        "The audio buffer is 256 frames, which takes effect the next time playing starts"
    );
    assert_eq!(
        buffer_note(None),
        "The audio buffer is the device's own size, which takes effect the next time playing \
         starts"
    );
}

#[test]
fn what_the_buffer_field_shows_reads_back() {
    for frames in [None, Some(1u32), Some(9), Some(10), Some(256), Some(4294967295)] {
        let shown = buffer_field_text(frames);
        assert_eq!(parse_buffer_frames(&shown), Ok(frames));
    }
}

#[test]
fn a_year_field_reads_a_whole_year_or_leaves_the_range_open() {
    assert_eq!(year_bound(" 1994 "), Some(1994));
    assert_eq!(year_bound("+2001"), Some(2001));
    assert_eq!(year_bound("0"), Some(0));
    assert_eq!(year_bound("65535"), Some(65535));
    assert_eq!(year_bound("65536"), None);
    assert_eq!(year_bound(""), None);
    assert_eq!(year_bound("19 94"), None);
    assert_eq!(year_bound("-5"), None);
    assert_eq!(year_bound("nineties"), None);
}
