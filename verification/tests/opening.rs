use dermixen_app::document::Document;
use dermixen_app::opening::{opened_document, opening_message};
use dermixen_app::relinking::{Outcome, relinking_of};

#[test]
fn the_last_thing_to_report_wins_and_relinking_stands_beside_it() {
    assert_eq!(opening_message(None, None, "", "", ""), "");
    assert_eq!(
        opening_message(Some("Cannot make the folder /c: denied"), None, "", "", ""),
        "Cannot make the folder /c: denied"
    );
    assert_eq!(
        opening_message(Some("Cannot make the folder /c: denied"), Some("Keylock is off."), "", "", ""),
        "Keylock is off."
    );
    assert_eq!(
        opening_message(None, Some("Keylock is off."), "No data folder.", "", ""),
        "No data folder."
    );
    assert_eq!(
        opening_message(None, None, "No data folder.", "The library panel is empty: gone", ""),
        "The library panel is empty: gone"
    );
    assert_eq!(
        opening_message(None, Some("Keylock is off."), "", "", "The file of 1 track is missing: a.wav."),
        "Keylock is off. The file of 1 track is missing: a.wav."
    );
    assert_eq!(
        opening_message(None, None, "", "", "The file of 1 track is missing: a.wav."),
        "The file of 1 track is missing: a.wav."
    );
}

#[test]
fn a_track_pointed_at_a_new_file_makes_the_document_unsaved() {
    let relinked = relinking_of(
        &vec![Outcome::Relinked {
            name: "lsd.wav".to_owned(),
        }],
        true,
        true,
    );
    let document = opened_document(Document::at("/music/set.dmx".to_owned()), &relinked);
    assert!(document.is_unsaved());

    let kept = relinking_of(&vec![Outcome::Kept], true, true);
    let document = opened_document(Document::at("/music/set.dmx".to_owned()), &kept);
    assert!(!document.is_unsaved());
}
