use dermixen_app::lanes::{curve_name, lane_label, CURVES};
use dermixen_app::relinking::NoFile;

#[test]
fn a_lane_label_names_the_place_the_tempo_the_keylock_and_the_gain() {
    assert_eq!(
        lane_label(0, "kalifornia", "140.0", false, "-6.0", None),
        "1. kalifornia  \u{b7}  140.0 BPM  \u{b7}  Keylock off  \u{b7}  -6.0 dB"
    );
    assert_eq!(
        lane_label(1, "mahadeva", "145.5", true, "+2.5", None),
        "2. mahadeva  \u{b7}  145.5 BPM  \u{b7}  Keylock on  \u{b7}  +2.5 dB"
    );
}

#[test]
fn a_lane_with_no_audio_says_what_is_wrong_with_its_file() {
    let missing = lane_label(1, "mahadeva", "145.0", false, "+0.0", Some(NoFile::Missing));
    assert!(missing.ends_with("+0.0 dB  \u{b7}  the file is missing"));
    let changed = lane_label(0, "kalifornia", "140.0", false, "-6.0", Some(NoFile::Changed));
    assert!(changed.ends_with("  \u{b7}  the file has changed"));
    let unreadable = lane_label(9, "lsd", "138.0", true, "-1.5", Some(NoFile::Unreadable));
    assert!(unreadable.starts_with("10. lsd"));
    assert!(unreadable.ends_with("  \u{b7}  the file cannot be read"));
    let fine = lane_label(0, "kalifornia", "140.0", false, "-6.0", None);
    assert!(!fine.contains("the file"));
}

#[test]
fn the_curves_are_listed_volume_first_and_named_in_the_window() {
    let names: Vec<&str> = CURVES.iter().map(|curve| curve_name(*curve)).collect();
    assert_eq!(names, vec!["Volume", "Low", "Mid", "High"]);
}
